use vstd::prelude::*;
use vstd::string::StringExecFns;

use crate::errors::Error;
use crate::store::{
    has_link, has_other_link, lemma_link_push, link_targets, IndexTag, Node, Store,
};
use crate::types::{EntityKind, PrincipalId, RecordId, Timestamp};

verus! {

/// Whether the entity `entity` is registered as an administrator of the
/// kind `kind`.
pub open spec fn is_administrator_spec(s: Store, kind: EntityKind, entity: RecordId) -> bool {
    has_link(s.entries@, Node::Anchor(kind), Node::Record(entity), IndexTag::Administrators)
}

/// Whether the principal `agent` administers the kind `kind`.
pub open spec fn agent_is_administrator_spec(
    s: Store,
    kind: EntityKind,
    agent: PrincipalId,
) -> bool {
    has_link(
        s.entries@,
        Node::Principal(agent),
        Node::Anchor(kind),
        IndexTag::PrincipalAdministers,
    )
}

/// Whether the entity `entity` is registered as an administrator of the
/// kind `kind`.
pub fn check_if_entity_is_administrator(s: &Store, kind: EntityKind, entity: RecordId) -> (b: bool)
    ensures
        b == is_administrator_spec(*s, kind, entity),
{
    s.contains_link(Node::Anchor(kind), Node::Record(entity), IndexTag::Administrators)
}

/// Whether the principal `agent` administers the kind `kind`.
pub fn check_if_agent_is_administrator(s: &Store, kind: EntityKind, agent: PrincipalId) -> (b: bool)
    ensures
        b == agent_is_administrator_spec(*s, kind, agent),
{
    s.contains_link(Node::Principal(agent), Node::Anchor(kind), IndexTag::PrincipalAdministers)
}

/// The entity originals registered as administrators of the kind `kind`,
/// in registration order.
pub fn get_all_administrators_links(s: &Store, kind: EntityKind) -> (v: Vec<Node>)
    ensures
        v@ == link_targets(s.entries@, Node::Anchor(kind), IndexTag::Administrators),
        forall|t: Node|
            #[trigger] v@.contains(t) <==> has_link(
                s.entries@,
                Node::Anchor(kind),
                t,
                IndexTag::Administrators,
            ),
{
    proof {
        crate::store::lemma_link_targets_complete(
            s.entries@,
            Node::Anchor(kind),
            IndexTag::Administrators,
        );
    }
    s.targets_of(Node::Anchor(kind), IndexTag::Administrators)
}

/// Register the entity `entity` as an administrator of the kind `kind`,
/// together with the principals `agents` that act for it.  Fails when the
/// entity is already registered; nothing is changed then.
pub fn register_administrator(
    s: &mut Store,
    kind: EntityKind,
    entity: RecordId,
    agents: &Vec<PrincipalId>,
    now: Timestamp,
) -> (r: Result<(), Error>)
    requires
        old(s).wf(),
        old(s).node_in_bounds(Node::Record(entity)),
    ensures
        final(s).wf(),
        r is Ok <==> !is_administrator_spec(*old(s), kind, entity),
        r matches Err(e) ==> e is InvariantViolation && *final(s) == *old(s),
        r is Ok ==> final(s).records == old(s).records && is_administrator_spec(
            *final(s),
            kind,
            entity,
        ) && (forall|a: PrincipalId|
            agents@.contains(a) ==> agent_is_administrator_spec(*final(s), kind, a)) && (
        forall|s2: Node, t2: Node, g2: IndexTag|
            #[trigger] has_link(final(s).entries@, s2, t2, g2) <==> (has_link(
                old(s).entries@,
                s2,
                t2,
                g2,
            ) || (s2 == Node::Anchor(kind) && t2 == Node::Record(entity) && g2
                == IndexTag::Administrators) || (g2 == IndexTag::PrincipalAdministers && t2
                == Node::Anchor(kind) && (exists|i: int|
                0 <= i < agents@.len() && s2 == Node::Principal(#[trigger] agents@[i]))))),
{
    if check_if_entity_is_administrator(s, kind, entity) {
        return Err(Error::InvariantViolation(String::from_str("already an administrator")));
    }
    let ghost mid = *s;
    s.put_entry(Node::Anchor(kind), Node::Record(entity), IndexTag::Administrators, now);
    proof {
        lemma_link_push(
            mid.entries@,
            (crate::store::IndexEntry {
                subject: Node::Anchor(kind),
                target: Node::Record(entity),
                tag: IndexTag::Administrators,
                at: now,
                deleted: false,
            }),
        );
    }
    let ghost before = *s;
    let n = agents.len();
    let mut k: usize = 0;
    while k < n
        invariant
            n == agents@.len(),
            k <= n,
            s.wf(),
            s.records == before.records,
            forall|s2: Node, t2: Node, g2: IndexTag|
                #[trigger] has_link(s.entries@, s2, t2, g2) <==> (has_link(
                    before.entries@,
                    s2,
                    t2,
                    g2,
                ) || (g2 == IndexTag::PrincipalAdministers && t2 == Node::Anchor(kind) && (exists|
                    i: int,
                |
                    0 <= i < k && s2 == Node::Principal(#[trigger] agents@[i])))),
        decreases n - k,
    {
        let a = agents[k];
        let ghost prev = *s;
        s.put_entry(
            Node::Principal(a),
            Node::Anchor(kind),
            IndexTag::PrincipalAdministers,
            now,
        );
        proof {
            lemma_link_push(
                prev.entries@,
                (crate::store::IndexEntry {
                    subject: Node::Principal(a),
                    target: Node::Anchor(kind),
                    tag: IndexTag::PrincipalAdministers,
                    at: now,
                    deleted: false,
                }),
            );
            assert(agents@[k as int] == a);
        }
        k = k + 1;
    }
    proof {
        assert forall|a: PrincipalId|
            agents@.contains(a) implies agent_is_administrator_spec(*s, kind, a) by {
            let i = choose|i: int| 0 <= i < agents@.len() && agents@[i] == a;
            assert(has_link(
                s.entries@,
                Node::Principal(agents@[i]),
                Node::Anchor(kind),
                IndexTag::PrincipalAdministers,
            ));
        }
    }
    Ok(())
}

/// Register a new administrator of the kind `kind`, on behalf of the
/// principal `caller`, which must itself administer the kind.
pub fn add_administrator(
    s: &mut Store,
    kind: EntityKind,
    entity: RecordId,
    agents: &Vec<PrincipalId>,
    caller: PrincipalId,
    now: Timestamp,
) -> (r: Result<(), Error>)
    requires
        old(s).wf(),
        old(s).node_in_bounds(Node::Record(entity)),
    ensures
        final(s).wf(),
        r is Ok <==> agent_is_administrator_spec(*old(s), kind, caller)
            && !is_administrator_spec(*old(s), kind, entity),
        r matches Err(e) ==> *final(s) == *old(s) && (e is PermissionDenied
            <==> !agent_is_administrator_spec(*old(s), kind, caller)),
        r is Ok ==> final(s).records == old(s).records && is_administrator_spec(
            *final(s),
            kind,
            entity,
        ) && (forall|a: PrincipalId|
            agents@.contains(a) ==> agent_is_administrator_spec(*final(s), kind, a)) && (
        forall|s2: Node, t2: Node, g2: IndexTag|
            #[trigger] has_link(final(s).entries@, s2, t2, g2) <==> (has_link(
                old(s).entries@,
                s2,
                t2,
                g2,
            ) || (s2 == Node::Anchor(kind) && t2 == Node::Record(entity) && g2
                == IndexTag::Administrators) || (g2 == IndexTag::PrincipalAdministers && t2
                == Node::Anchor(kind) && (exists|i: int|
                0 <= i < agents@.len() && s2 == Node::Principal(#[trigger] agents@[i]))))),
{
    if !check_if_agent_is_administrator(s, kind, caller) {
        return Err(
            Error::PermissionDenied(
                String::from_str("only administrators can add administrators"),
            ),
        );
    }
    register_administrator(s, kind, entity, agents, now)
}

/// Strike the entity `entity` from the administrators of the kind `kind`,
/// together with the principal links of `agents`.  The caller must
/// administer the kind, the entity must be registered, and at least one
/// administrator must remain: the registry may never be emptied by a
/// removal.
pub fn remove_administrator(
    s: &mut Store,
    kind: EntityKind,
    entity: RecordId,
    agents: &Vec<PrincipalId>,
    caller: PrincipalId,
    now: Timestamp,
) -> (r: Result<(), Error>)
    requires
        old(s).wf(),
    ensures
        final(s).wf(),
        r is Ok <==> agent_is_administrator_spec(*old(s), kind, caller) && is_administrator_spec(
            *old(s),
            kind,
            entity,
        ) && has_other_link(
            old(s).entries@,
            Node::Anchor(kind),
            IndexTag::Administrators,
            Node::Record(entity),
        ),
        r matches Err(e) ==> *final(s) == *old(s) && (e is PermissionDenied
            <==> !agent_is_administrator_spec(*old(s), kind, caller)) && (e is NotFound
            <==> agent_is_administrator_spec(*old(s), kind, caller) && !is_administrator_spec(
            *old(s),
            kind,
            entity,
        )) && (e is InvariantViolation <==> agent_is_administrator_spec(*old(s), kind, caller)
            && is_administrator_spec(*old(s), kind, entity) && !has_other_link(
            old(s).entries@,
            Node::Anchor(kind),
            IndexTag::Administrators,
            Node::Record(entity),
        )),
        r is Ok ==> final(s).records == old(s).records && !is_administrator_spec(
            *final(s),
            kind,
            entity,
        ) && (forall|s2: Node, t2: Node, g2: IndexTag|
            #[trigger] has_link(final(s).entries@, s2, t2, g2) <==> (has_link(
                old(s).entries@,
                s2,
                t2,
                g2,
            ) && !(s2 == Node::Anchor(kind) && t2 == Node::Record(entity) && g2
                == IndexTag::Administrators) && !(g2 == IndexTag::PrincipalAdministers && t2
                == Node::Anchor(kind) && (exists|i: int|
                0 <= i < agents@.len() && s2 == Node::Principal(#[trigger] agents@[i]))))),
{
    if !check_if_agent_is_administrator(s, kind, caller) {
        return Err(
            Error::PermissionDenied(
                String::from_str("only administrators can remove administrators"),
            ),
        );
    }
    if !check_if_entity_is_administrator(s, kind, entity) {
        return Err(
            Error::NotFound(String::from_str("could not find the administrator link")),
        );
    }
    if !s.contains_other_link(
        Node::Anchor(kind),
        IndexTag::Administrators,
        Node::Record(entity),
    ) {
        return Err(
            Error::InvariantViolation(
                String::from_str("there must be at least one administrator"),
            ),
        );
    }
    s.delete_matching(Node::Anchor(kind), Node::Record(entity), IndexTag::Administrators);
    let ghost before = *s;
    let n = agents.len();
    let mut k: usize = 0;
    while k < n
        invariant
            n == agents@.len(),
            k <= n,
            s.wf(),
            s.records == before.records,
            forall|s2: Node, t2: Node, g2: IndexTag|
                #[trigger] has_link(s.entries@, s2, t2, g2) <==> (has_link(
                    before.entries@,
                    s2,
                    t2,
                    g2,
                ) && !(g2 == IndexTag::PrincipalAdministers && t2 == Node::Anchor(kind) && (exists|
                    i: int,
                |
                    0 <= i < k && s2 == Node::Principal(#[trigger] agents@[i])))),
        decreases n - k,
    {
        let a = agents[k];
        s.delete_matching(
            Node::Principal(a),
            Node::Anchor(kind),
            IndexTag::PrincipalAdministers,
        );
        proof {
            assert(agents@[k as int] == a);
        }
        k = k + 1;
    }
    let _ = now;
    Ok(())
}

} // verus!
