use vstd::prelude::*;
use vstd::string::StringExecFns;

use crate::admin::{agent_is_administrator_spec, check_if_agent_is_administrator};
use crate::errors::Error;
use crate::resolve::{
    lemma_best_revision_push_latest, lemma_best_revision_push_other,
    lemma_best_revision_same_revisions, lemma_best_revision_upto_props, resolve_latest_id,
    resolved_id,
};
use crate::status::Status;
use crate::store::{
    entry_matches, first_link_target, has_link, has_link_from, lemma_first_target_push,
    lemma_first_target_same, lemma_first_target_some, lemma_link_push, link_targets, stamps_at_most,
    IndexEntry, IndexTag, Node, Payload, Record, Store,
};
use crate::types::{EntityKind, PrincipalId, RecordId, Timestamp};

verus! {

/// Where the status chain of `entity` is anchored: the target of the
/// entity's earliest live status link, written once when the entity is
/// created.
pub open spec fn status_origin(s: Store, entity: RecordId) -> Option<Node> {
    first_link_target(s.entries@, Node::Record(entity), IndexTag::EntityStatus)
}

/// The original record id of the status chain of `entity`, when the
/// status link has the shape it was written with.
pub open spec fn status_chain_origin(s: Store, entity: RecordId) -> Option<RecordId> {
    match status_origin(s, entity) {
        Some(n) => match n {
            Node::Record(so) => Some(so),
            Node::Principal(_) => None,
            Node::Anchor(_) => None,
        },
        None => None,
    }
}

/// The record id the status chain of `entity` currently resolves to.
pub open spec fn status_prev_id(s: Store, entity: RecordId) -> Option<RecordId> {
    match status_chain_origin(s, entity) {
        Some(so) => resolved_id(s, so),
        None => None,
    }
}

/// The outcome of looking up the current status of an entity.
pub enum StatusLookup {
    /// The entity has no status chain yet: an empty result, not a failure.
    NoStatus,
    /// The chain exists but the record it resolves to cannot be fetched.
    Missing,
    /// The chain resolves to something that is not a status.
    Malformed,
    /// The current status.
    Found(Status),
}

/// What the current status lookup of `entity` yields.
pub open spec fn status_view(s: Store, entity: RecordId) -> StatusLookup {
    match status_origin(s, entity) {
        None => StatusLookup::NoStatus,
        Some(n) => match n {
            Node::Record(so) => match resolved_id(s, so) {
                None => StatusLookup::Missing,
                Some(id) => match s.records@[id as int].payload {
                    Payload::Status(st) => StatusLookup::Found(st),
                    Payload::User(_) => StatusLookup::Malformed,
                    Payload::Organization(_) => StatusLookup::Malformed,
                },
            },
            Node::Principal(_) => StatusLookup::Malformed,
            Node::Anchor(_) => StatusLookup::Malformed,
        },
    }
}

/// The current status of `entity`, when its lookup succeeds.
pub open spec fn latest_status_of(s: Store, entity: RecordId) -> Option<Status> {
    match status_view(s, entity) {
        StatusLookup::Found(st) => Some(st),
        _ => None,
    }
}

/// Whether `entity` stands in the accepted-entities listing of `kind`.
pub open spec fn is_accepted_spec(s: Store, kind: EntityKind, entity: RecordId) -> bool {
    has_link(s.entries@, Node::Anchor(kind), Node::Record(entity), IndexTag::AcceptedEntities)
}

/// Whether `entity` stands in the accepted-entities listing of `kind`.
pub fn check_if_entity_is_accepted(s: &Store, kind: EntityKind, entity: RecordId) -> (b: bool)
    ensures
        b == is_accepted_spec(*s, kind, entity),
{
    s.contains_link(Node::Anchor(kind), Node::Record(entity), IndexTag::AcceptedEntities)
}

/// The entity originals in the accepted-entities listing of `kind`, in the
/// order they entered it.
pub fn get_accepted_entities(s: &Store, kind: EntityKind) -> (v: Vec<Node>)
    ensures
        v@ == link_targets(s.entries@, Node::Anchor(kind), IndexTag::AcceptedEntities),
        forall|t: Node|
            #[trigger] v@.contains(t) <==> has_link(
                s.entries@,
                Node::Anchor(kind),
                t,
                IndexTag::AcceptedEntities,
            ),
{
    proof {
        crate::store::lemma_link_targets_complete(
            s.entries@,
            Node::Anchor(kind),
            IndexTag::AcceptedEntities,
        );
    }
    s.targets_of(Node::Anchor(kind), IndexTag::AcceptedEntities)
}

/// Open the status chain of a fresh entity: a `Pending` status record,
/// reached from the entity by a status link written exactly once.  Fails
/// when the entity already has one; nothing is changed then.
pub fn create_status(
    s: &mut Store,
    kind: EntityKind,
    entity: RecordId,
    caller: PrincipalId,
    now: Timestamp,
) -> (r: Result<RecordId, Error>)
    requires
        old(s).wf(),
        old(s).node_in_bounds(Node::Record(entity)),
    ensures
        final(s).wf(),
        r is Ok <==> !has_link_from(old(s).entries@, Node::Record(entity), IndexTag::EntityStatus),
        r matches Err(e) ==> e is InvariantViolation && *final(s) == *old(s),
        r matches Ok(sid) ==> sid == old(s).records@.len() && final(s).records@ == old(s)
            .records@.push(
            (Record {
                author: caller,
                payload: Payload::Status(Status::Pending),
                revises: None,
                deleted: false,
            }),
        ),
        r matches Ok(sid) ==> final(s).entries@ == old(s).entries@.push(
            (IndexEntry {
                subject: Node::Record(entity),
                target: Node::Record(sid),
                tag: IndexTag::EntityStatus,
                at: now,
                deleted: false,
            }),
        ),
        r matches Ok(sid) ==> status_origin(*final(s), entity) == Some(Node::Record(sid))
            && latest_status_of(*final(s), entity) == Some(Status::Pending),
        r is Ok ==> forall|s2: Node, t2: Node, g2: IndexTag|
            #[trigger] has_link(final(s).entries@, s2, t2, g2) <==> (has_link(
                old(s).entries@,
                s2,
                t2,
                g2,
            ) || (s2 == Node::Record(entity) && t2 == Node::Record(old(s).records@.len() as RecordId)
                && g2 == IndexTag::EntityStatus)),
    {
    if s.contains_link_from(Node::Record(entity), IndexTag::EntityStatus) {
        return Err(Error::InvariantViolation(String::from_str("the entity already has a status")));
    }
    let ghost s0 = *s;
    let sid = s.put_record(
        Record {
            author: caller,
            payload: Payload::Status(Status::Pending),
            revises: None,
            deleted: false,
        },
    );
    let ghost s1 = *s;
    s.put_entry(Node::Record(entity), Node::Record(sid), IndexTag::EntityStatus, now);
    proof {
        let e = IndexEntry {
            subject: Node::Record(entity),
            target: Node::Record(sid),
            tag: IndexTag::EntityStatus,
            at: now,
            deleted: false,
        };
        lemma_link_push(s1.entries@, e);
        lemma_first_target_push(s1.entries@, e, Node::Record(entity), IndexTag::EntityStatus);
        lemma_first_target_some(s0.entries@, Node::Record(entity), IndexTag::EntityStatus);
        lemma_best_revision_push_other(s1.entries@, e, sid);
        lemma_best_revision_upto_props(s0.entries@, sid, s0.entries@.len() as int);
        match crate::resolve::best_revision(s0.entries@, sid) {
            Some(j) => {
                assert(entry_matches(s0.entries@[j], Node::Record(sid), IndexTag::Revision));
                assert(s0.node_in_bounds(s0.entries@[j].subject));
                assert(false);
            },
            None => {},
        }
    }
    Ok(sid)
}

/// The current status of `entity`: an empty result when the entity has no
/// status chain yet, a `NotFound` failure when the chain resolves to a
/// record that cannot be fetched, and a `MalformedState` failure when what
/// it resolves to is not a status.
pub fn get_latest_status_for_entity<'a>(s: &'a Store, entity: RecordId) -> (r: Result<
    Option<&'a Status>,
    Error,
>)
    ensures
        status_view(*s, entity) is NoStatus ==> (r matches Ok(o) && o is None),
        status_view(*s, entity) is Missing ==> (r matches Err(e) && e is NotFound),
        status_view(*s, entity) is Malformed ==> (r matches Err(e) && e is MalformedState),
        status_view(*s, entity) matches StatusLookup::Found(st) ==> (r matches Ok(o)
            && o matches Some(p) && *p == st),
{
    let so = s.first_target(Node::Record(entity), IndexTag::EntityStatus);
    match so {
        None => Ok(None),
        Some(Node::Record(soid)) => {
            match resolve_latest_id(s, soid) {
                Some(id) => {
                    let rec = &s.records[id];
                    match &rec.payload {
                        Payload::Status(st) => Ok(Some(st)),
                        _ => Err(
                            Error::MalformedState(
                                String::from_str("the stored status cannot be read"),
                            ),
                        ),
                    }
                },
                None => Err(
                    Error::NotFound(String::from_str("could not find the latest status")),
                ),
            }
        },
        Some(_) => Err(Error::MalformedState(String::from_str("the status link is malformed"))),
    }
}


/// Whether the principal `caller` may set a new status on `entity` of kind
/// `kind`: it must administer the kind, and the entity's status chain must
/// resolve.
pub open spec fn can_set_status(
    s: Store,
    kind: EntityKind,
    entity: RecordId,
    caller: PrincipalId,
) -> bool {
    agent_is_administrator_spec(s, kind, caller) && status_prev_id(s, entity) is Some
}

/// Set a new status on `entity`: append a status record revising the
/// current one, link it into the status chain, and recompute the
/// accepted-entities listing — the entity stands in it afterwards exactly
/// when the new status is `Accepted`.  Only an administrator of the kind
/// may do this.
pub fn update_entity_status(
    s: &mut Store,
    kind: EntityKind,
    entity: RecordId,
    new_status: Status,
    caller: PrincipalId,
    now: Timestamp,
) -> (r: Result<RecordId, Error>)
    requires
        old(s).wf(),
        old(s).node_in_bounds(Node::Record(entity)),
    ensures
        final(s).wf(),
        r is Ok <==> can_set_status(*old(s), kind, entity, caller),
        r matches Err(e) ==> *final(s) == *old(s) && (e is PermissionDenied
            <==> !agent_is_administrator_spec(*old(s), kind, caller)),
        r matches Err(e) ==> (agent_is_administrator_spec(*old(s), kind, caller) && status_origin(
            *old(s),
            entity,
        ) is None ==> e is NotFound),
        r matches Err(e) ==> (agent_is_administrator_spec(*old(s), kind, caller) && status_origin(
            *old(s),
            entity,
        ) is Some && status_chain_origin(*old(s), entity) is None ==> e is MalformedState),
        r matches Err(e) ==> (agent_is_administrator_spec(*old(s), kind, caller)
            && status_chain_origin(*old(s), entity) is Some && status_prev_id(*old(s), entity)
            is None ==> e is NotFound),
        r is Ok ==> (is_accepted_spec(*final(s), kind, entity) <==> new_status is Accepted),
        r is Ok ==> forall|k2: EntityKind, e2: RecordId|
            !(k2 == kind && e2 == entity) ==> #[trigger] is_accepted_spec(*final(s), k2, e2)
                == is_accepted_spec(*old(s), k2, e2),
        r matches Ok(nid) ==> (match status_chain_origin(*old(s), entity) {
            Some(so) => (match resolved_id(*old(s), so) {
                Some(prev) => {
                    &&& nid == old(s).records@.len()
                    &&& final(s).records@ == old(s).records@.push(
                        (Record {
                            author: caller,
                            payload: Payload::Status(new_status),
                            revises: Some(prev),
                            deleted: false,
                        }),
                    )
                    &&& status_origin(*final(s), entity) == status_origin(*old(s), entity)
                    &&& (stamps_at_most(old(s).entries@, Node::Record(so), IndexTag::Revision, now)
                        ==> latest_status_of(*final(s), entity) == Some(new_status))
                    &&& forall|s2: Node, t2: Node, g2: IndexTag|
                        #[trigger] has_link(final(s).entries@, s2, t2, g2) <==> ((has_link(
                            old(s).entries@,
                            s2,
                            t2,
                            g2,
                        ) && !(s2 == Node::Anchor(kind) && t2 == Node::Record(entity) && g2
                            == IndexTag::AcceptedEntities)) || (s2 == Node::Record(so) && t2
                            == Node::Record(nid) && g2 == IndexTag::Revision) || (
                        new_status is Accepted && s2 == Node::Anchor(kind) && t2 == Node::Record(
                            entity,
                        ) && g2 == IndexTag::AcceptedEntities))
                },
                None => false,
            }),
            None => false,
        }),
{
    if !check_if_agent_is_administrator(s, kind, caller) {
        return Err(
            Error::PermissionDenied(
                String::from_str("only administrators can update the status of an entity"),
            ),
        );
    }
    let so = s.first_target(Node::Record(entity), IndexTag::EntityStatus);
    let soid = match so {
        None => {
            return Err(Error::NotFound(String::from_str("the entity has no status")));
        },
        Some(Node::Record(x)) => x,
        Some(_) => {
            return Err(
                Error::MalformedState(String::from_str("the status link is malformed")),
            );
        },
    };
    proof {
        lemma_first_target_some(s.entries@, Node::Record(entity), IndexTag::EntityStatus);
        let i = choose|i: int|
            0 <= i < s.entries@.len() && #[trigger] entry_matches(
                s.entries@[i],
                Node::Record(entity),
                IndexTag::EntityStatus,
            ) && s.entries@[i].target == Node::Record(soid);
        assert(s.node_in_bounds(s.entries@[i].target));
    }
    let prev = match resolve_latest_id(s, soid) {
        Some(p) => p,
        None => {
            return Err(Error::NotFound(String::from_str("could not find the latest status")));
        },
    };
    let ghost s0 = *s;
    let is_acc = matches!(new_status, Status::Accepted);
    let nid = s.put_record(
        Record {
            author: caller,
            payload: Payload::Status(new_status),
            revises: Some(prev),
            deleted: false,
        },
    );
    let ghost s1 = *s;
    s.put_entry(Node::Record(soid), Node::Record(nid), IndexTag::Revision, now);
    let ghost s2 = *s;
    let ghost e_rev = IndexEntry {
        subject: Node::Record(soid),
        target: Node::Record(nid),
        tag: IndexTag::Revision,
        at: now,
        deleted: false,
    };
    proof {
        lemma_link_push(s1.entries@, e_rev);
        lemma_first_target_push(s1.entries@, e_rev, Node::Record(entity), IndexTag::EntityStatus);
    }
    s.delete_matching(Node::Anchor(kind), Node::Record(entity), IndexTag::AcceptedEntities);
    let ghost s3 = *s;
    proof {
        assert forall|i: int|
            0 <= i < s2.entries@.len() implies entry_matches(
            #[trigger] s2.entries@[i],
            Node::Record(entity),
            IndexTag::EntityStatus,
        ) == entry_matches(#[trigger] s3.entries@[i], Node::Record(entity), IndexTag::EntityStatus)
            && (entry_matches(s2.entries@[i], Node::Record(entity), IndexTag::EntityStatus)
            ==> s3.entries@[i] == s2.entries@[i]) by {}
        lemma_first_target_same(
            s2.entries@,
            s3.entries@,
            Node::Record(entity),
            IndexTag::EntityStatus,
        );
    }
    if is_acc {
        s.put_entry(Node::Anchor(kind), Node::Record(entity), IndexTag::AcceptedEntities, now);
        proof {
            let e_acc = IndexEntry {
                subject: Node::Anchor(kind),
                target: Node::Record(entity),
                tag: IndexTag::AcceptedEntities,
                at: now,
                deleted: false,
            };
            lemma_link_push(s3.entries@, e_acc);
            lemma_first_target_push(
                s3.entries@,
                e_acc,
                Node::Record(entity),
                IndexTag::EntityStatus,
            );
        }
    }
    proof {
        if stamps_at_most(s0.entries@, Node::Record(soid), IndexTag::Revision, now) {
            lemma_best_revision_push_latest(s1.entries@, e_rev, soid);
            assert forall|i: int|
                0 <= i < s2.entries@.len() implies entry_matches(
                #[trigger] s2.entries@[i],
                Node::Record(soid),
                IndexTag::Revision,
            ) == entry_matches(#[trigger] s3.entries@[i], Node::Record(soid), IndexTag::Revision)
                && (entry_matches(s2.entries@[i], Node::Record(soid), IndexTag::Revision)
                ==> s3.entries@[i] == s2.entries@[i]) by {}
            lemma_best_revision_same_revisions(
                s2.entries@,
                s3.entries@,
                soid,
                s2.entries@.len() as int,
            );
            if is_acc {
                let e_acc = IndexEntry {
                    subject: Node::Anchor(kind),
                    target: Node::Record(entity),
                    tag: IndexTag::AcceptedEntities,
                    at: now,
                    deleted: false,
                };
                lemma_best_revision_push_other(s3.entries@, e_acc, soid);
            }
            assert(crate::resolve::best_revision(s.entries@, soid) == Some(
                s1.entries@.len() as int,
            ));
            assert(s.entries@[s1.entries@.len() as int] == e_rev);
            assert(resolved_id(*s, soid) == Some(nid));
        }
    }
    Ok(nid)
}


/// Whether the current status of `entity` is a temporary suspension whose
/// end, judged at the instant `now`, lies less than one hour away or has
/// passed.
pub open spec fn suspension_expired(s: Store, entity: RecordId, now: Timestamp) -> bool {
    match latest_status_of(s, entity) {
        Some(st) => match st {
            Status::SuspendedTemporarily { until, .. } => until - now < crate::types::MICROS_PER_HOUR,
            _ => false,
        },
        None => false,
    }
}

/// Suspend `entity` until `days` days past `now`, for `reason`.  The
/// duration is required: a temporary suspension without one is refused,
/// as is one whose end does not fit a timestamp.
pub fn suspend_entity_temporarily(
    s: &mut Store,
    kind: EntityKind,
    entity: RecordId,
    reason: &str,
    duration_in_days: Option<i64>,
    caller: PrincipalId,
    now: Timestamp,
) -> (r: Result<RecordId, Error>)
    requires
        old(s).wf(),
        old(s).node_in_bounds(Node::Record(entity)),
    ensures
        final(s).wf(),
        r is Ok <==> (duration_in_days matches Some(days) && i64::MIN <= now + days
            * crate::types::MICROS_PER_DAY <= i64::MAX && can_set_status(
            *old(s),
            kind,
            entity,
            caller,
        )),
        r matches Err(e) ==> *final(s) == *old(s),
        duration_in_days is None ==> (r matches Err(e) && e is PreconditionFailed),
        r matches Err(e) ==> (duration_in_days matches Some(days) && !(i64::MIN <= now + days
            * crate::types::MICROS_PER_DAY <= i64::MAX) ==> e is PreconditionFailed),
        r matches Err(e) ==> (duration_in_days matches Some(days) && i64::MIN <= now + days
            * crate::types::MICROS_PER_DAY <= i64::MAX ==> (e is PermissionDenied
            <==> !agent_is_administrator_spec(*old(s), kind, caller))),
        r is Ok ==> !is_accepted_spec(*final(s), kind, entity),
        r is Ok ==> (match duration_in_days {
            Some(days) => (match status_chain_origin(*old(s), entity) {
                Some(so) => stamps_at_most(
                    old(s).entries@,
                    Node::Record(so),
                    IndexTag::Revision,
                    now,
                ) ==> (latest_status_of(*final(s), entity) matches Some(st)
                    && st matches Status::SuspendedTemporarily { reason: rs, until } && rs@
                    == reason@ && until == now + days * crate::types::MICROS_PER_DAY),
                None => false,
            }),
            None => false,
        }),
{
    let days = match duration_in_days {
        Some(days) => days,
        None => {
            return Err(
                Error::PreconditionFailed(
                    String::from_str("duration in days must be provided"),
                ),
            );
        },
    };
    let wide: i128 = now as i128 + (days as i128) * (crate::types::MICROS_PER_DAY as i128);
    if wide < i64::MIN as i128 || wide > i64::MAX as i128 {
        return Err(
            Error::PreconditionFailed(String::from_str("the suspension end is out of range")),
        );
    }
    let new_status = Status::suspend(reason, Some((days, now)));
    update_entity_status(s, kind, entity, new_status, caller, now)
}

/// Suspend `entity` with no end, for `reason`.
pub fn suspend_entity_indefinitely(
    s: &mut Store,
    kind: EntityKind,
    entity: RecordId,
    reason: &str,
    caller: PrincipalId,
    now: Timestamp,
) -> (r: Result<RecordId, Error>)
    requires
        old(s).wf(),
        old(s).node_in_bounds(Node::Record(entity)),
    ensures
        final(s).wf(),
        r is Ok <==> can_set_status(*old(s), kind, entity, caller),
        r matches Err(e) ==> *final(s) == *old(s) && (e is PermissionDenied
            <==> !agent_is_administrator_spec(*old(s), kind, caller)),
        r is Ok ==> !is_accepted_spec(*final(s), kind, entity),
        r is Ok ==> (match status_chain_origin(*old(s), entity) {
            Some(so) => stamps_at_most(old(s).entries@, Node::Record(so), IndexTag::Revision, now)
                ==> (latest_status_of(*final(s), entity) matches Some(st)
                && st matches Status::SuspendedIndefinitely { reason: rs } && rs@ == reason@),
            None => false,
        }),
{
    let new_status = Status::suspend(reason, None);
    update_entity_status(s, kind, entity, new_status, caller, now)
}

/// Lift any suspension of `entity`: its status becomes `Accepted`.
pub fn unsuspend_entity(
    s: &mut Store,
    kind: EntityKind,
    entity: RecordId,
    caller: PrincipalId,
    now: Timestamp,
) -> (r: Result<RecordId, Error>)
    requires
        old(s).wf(),
        old(s).node_in_bounds(Node::Record(entity)),
    ensures
        final(s).wf(),
        r is Ok <==> can_set_status(*old(s), kind, entity, caller),
        r matches Err(e) ==> *final(s) == *old(s) && (e is PermissionDenied
            <==> !agent_is_administrator_spec(*old(s), kind, caller)),
        r is Ok ==> is_accepted_spec(*final(s), kind, entity),
        r is Ok ==> (match status_chain_origin(*old(s), entity) {
            Some(so) => stamps_at_most(old(s).entries@, Node::Record(so), IndexTag::Revision, now)
                ==> latest_status_of(*final(s), entity) == Some(Status::Accepted),
            None => false,
        }),
{
    update_entity_status(s, kind, entity, Status::Accepted, caller, now)
}

/// Lift a temporary suspension of `entity` that has expired, judged at the
/// instant `now` with a one-hour grace window.  Returns whether the
/// suspension was lifted; a status that is not an expired temporary
/// suspension is left as it stands.  The system has no scheduler: expiry
/// is checked lazily, by whoever calls this.
pub fn unsuspend_entity_if_time_passed(
    s: &mut Store,
    kind: EntityKind,
    entity: RecordId,
    caller: PrincipalId,
    now: Timestamp,
) -> (r: Result<bool, Error>)
    requires
        old(s).wf(),
        old(s).node_in_bounds(Node::Record(entity)),
    ensures
        final(s).wf(),
        r matches Ok(b) ==> b == suspension_expired(*old(s), entity, now),
        r matches Ok(b) && !b ==> *final(s) == *old(s),
        latest_status_of(*old(s), entity) is Some && !suspension_expired(*old(s), entity, now)
            ==> r == Result::<bool, Error>::Ok(false),
        status_view(*old(s), entity) is NoStatus ==> (r matches Err(e) && e is NotFound
            && *final(s) == *old(s)),
        status_view(*old(s), entity) is Missing ==> (r matches Err(e) && e is NotFound && *final(s)
            == *old(s)),
        status_view(*old(s), entity) is Malformed ==> (r matches Err(e) && e is MalformedState
            && *final(s) == *old(s)),
        suspension_expired(*old(s), entity, now) && !agent_is_administrator_spec(
            *old(s),
            kind,
            caller,
        ) ==> (r matches Err(e) && e is PermissionDenied && *final(s) == *old(s)),
        suspension_expired(*old(s), entity, now) && agent_is_administrator_spec(
            *old(s),
            kind,
            caller,
        ) ==> r == Result::<bool, Error>::Ok(true),
        r matches Ok(b) && b ==> is_accepted_spec(*final(s), kind, entity) && (
        match status_chain_origin(*old(s), entity) {
            Some(so) => stamps_at_most(old(s).entries@, Node::Record(so), IndexTag::Revision, now)
                ==> latest_status_of(*final(s), entity) == Some(Status::Accepted),
            None => false,
        }),
{
    let until_opt: Option<i64> = match get_latest_status_for_entity(s, entity) {
        Ok(Some(status)) => status.suspended_until(),
        Ok(None) => {
            return Err(Error::NotFound(String::from_str("the entity has no status")));
        },
        Err(e) => {
            return Err(e);
        },
    };
    match until_opt {
        Some(until) => {
            if (until as i128) - (now as i128) < crate::types::MICROS_PER_HOUR as i128 {
                match update_entity_status(s, kind, entity, Status::Accepted, caller, now) {
                    Ok(_) => Ok(true),
                    Err(e) => Err(e),
                }
            } else {
                Ok(false)
            }
        },
        None => Ok(false),
    }
}


/// Every revision of the status chain whose original record is
/// `status_orig`, the original status first.
pub fn get_all_revisions_for_status<'a>(s: &'a Store, status_orig: RecordId) -> (v: Vec<
    &'a Record,
>)
    ensures
        (status_orig >= s.records@.len() || s.records@[status_orig as int].deleted) ==> v@.len()
            == 0,
        status_orig < s.records@.len() && !s.records@[status_orig as int].deleted ==> ({
            let fetched = crate::resolve::fetched_records(
                *s,
                crate::store::link_targets(
                    s.entries@,
                    Node::Record(status_orig),
                    IndexTag::Revision,
                ),
            );
            &&& v@.len() == 1 + fetched.len()
            &&& *v@[0] == s.records@[status_orig as int]
            &&& forall|i: int| 0 <= i < fetched.len() ==> *v@[i + 1] == fetched[i]
        }),
{
    crate::resolve::get_all_revisions_for_entry(s, status_orig)
}


/// The record holding the current status of `entity`: an empty result
/// when the entity has no status chain yet.
pub fn get_latest_status_record_for_entity<'a>(s: &'a Store, entity: RecordId) -> (r: Result<
    Option<&'a Record>,
    Error,
>)
    ensures
        status_origin(*s, entity) is None ==> (r matches Ok(o) && o is None),
        status_origin(*s, entity) is Some && status_chain_origin(*s, entity) is None ==> (
        r matches Err(e) && e is MalformedState),
        (match status_chain_origin(*s, entity) {
            Some(so) => (match resolved_id(*s, so) {
                Some(id) => r matches Ok(o) && o matches Some(rec) && *rec == s.records@[id as int],
                None => r matches Err(e) && e is NotFound,
            }),
            None => true,
        }),
{
    let so = s.first_target(Node::Record(entity), IndexTag::EntityStatus);
    match so {
        None => Ok(None),
        Some(Node::Record(soid)) => {
            match resolve_latest_id(s, soid) {
                Some(id) => Ok(Some(&s.records[id])),
                None => Err(
                    Error::NotFound(String::from_str("could not find the latest status")),
                ),
            }
        },
        Some(_) => Err(Error::MalformedState(String::from_str("the status link is malformed"))),
    }
}

} // verus!
