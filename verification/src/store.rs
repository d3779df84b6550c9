use vstd::prelude::*;

use crate::profile::{Organization, User};
use crate::status::Status;
use crate::types::{EntityKind, PrincipalId, RecordId, Timestamp};

verus! {

/// One end of an index entry: a stored record, a peer, or the named
/// collection root ("anchor") of an entity kind.
#[derive(Clone, Copy, Debug, PartialEq, Eq, Structural)]
pub enum Node {
    Record(RecordId),
    Principal(PrincipalId),
    Anchor(EntityKind),
}

/// The typed pointer classes of the secondary index.
#[derive(Clone, Copy, Debug, PartialEq, Eq, Structural)]
pub enum IndexTag {
    /// Original record of an entity or status chain, to a newer revision.
    Revision,
    /// Entity original, to the original of its status chain.
    EntityStatus,
    /// Kind anchor, to an entity original: the listing of all entities.
    AllEntities,
    /// Kind anchor, to an entity original: the listing of accepted entities.
    AcceptedEntities,
    /// Kind anchor, to the entity original of an administrator of the kind.
    Administrators,
    /// Principal, to the anchor of a kind it administers.
    PrincipalAdministers,
    /// Principal, to the user entity it authored.
    PrincipalUser,
    /// Organization original, to a member's user original.
    OrganizationMembers,
    /// Member's user original, to an organization original.
    UserOrganizations,
    /// Organization original, to a coordinator's user original.
    OrganizationCoordinators,
}

/// An entry of the append-only secondary index: a typed pointer from a
/// subject to a target, stamped with the creation time of the entry.
/// Entries are never removed, only tombstoned through `deleted`.
#[derive(Clone, Copy, Debug, PartialEq, Eq, Structural)]
pub struct IndexEntry {
    pub subject: Node,
    pub target: Node,
    pub tag: IndexTag,
    pub at: Timestamp,
    pub deleted: bool,
}

/// The payload of a stored record.
#[derive(Clone, Debug, PartialEq, Eq)]
pub enum Payload {
    User(User),
    Organization(Organization),
    Status(Status),
}

/// An immutable, content-addressed record.  A revision is a new record
/// carrying a back-pointer to the record it revises; the record itself is
/// never rewritten.  `deleted` is the tombstone a record-level delete leaves.
#[derive(Clone, Debug)]
pub struct Record {
    pub author: PrincipalId,
    pub payload: Payload,
    pub revises: Option<RecordId>,
    pub deleted: bool,
}

/// A peer's snapshot of the replicated content store: the records it can
/// see, and the secondary-index entries over them.  Both grow append-only;
/// the id of a record is the position at which it was appended.
pub struct Store {
    pub records: Vec<Record>,
    pub entries: Vec<IndexEntry>,
}

/// Whether `e` is a live entry from `subject` with tag `tag`.
pub open spec fn entry_matches(e: IndexEntry, subject: Node, tag: IndexTag) -> bool {
    !e.deleted && e.subject == subject && e.tag == tag
}

/// Whether a live entry `subject -> target` with tag `tag` exists.
pub open spec fn has_link(es: Seq<IndexEntry>, subject: Node, target: Node, tag: IndexTag) -> bool {
    exists|i: int|
        0 <= i < es.len() && #[trigger] entry_matches(es[i], subject, tag) && es[i].target
            == target
}

/// Whether any live entry from `subject` with tag `tag` exists.
pub open spec fn has_link_from(es: Seq<IndexEntry>, subject: Node, tag: IndexTag) -> bool {
    exists|i: int| 0 <= i < es.len() && #[trigger] entry_matches(es[i], subject, tag)
}

/// Whether a live entry from `subject` with tag `tag` exists whose target
/// is not `excl`.
pub open spec fn has_other_link(
    es: Seq<IndexEntry>,
    subject: Node,
    tag: IndexTag,
    excl: Node,
) -> bool {
    exists|i: int|
        0 <= i < es.len() && #[trigger] entry_matches(es[i], subject, tag) && es[i].target != excl
}

/// The target of the earliest live entry from `subject` with tag `tag`.
pub open spec fn first_link_target(es: Seq<IndexEntry>, subject: Node, tag: IndexTag) -> Option<
    Node,
>
    decreases es.len(),
{
    if es.len() == 0 {
        None
    } else if entry_matches(es[0], subject, tag) {
        Some(es[0].target)
    } else {
        first_link_target(es.skip(1), subject, tag)
    }
}

/// The targets of all live entries from `subject` with tag `tag`, in the
/// order the entries were appended.
pub open spec fn link_targets(es: Seq<IndexEntry>, subject: Node, tag: IndexTag) -> Seq<Node>
    decreases es.len(),
{
    if es.len() == 0 {
        Seq::empty()
    } else if entry_matches(es[es.len() - 1], subject, tag) {
        link_targets(es.drop_last(), subject, tag).push(es[es.len() - 1].target)
    } else {
        link_targets(es.drop_last(), subject, tag)
    }
}

/// Whether every live entry from `subject` with tag `tag` is stamped at or
/// before `t`.
pub open spec fn stamps_at_most(es: Seq<IndexEntry>, subject: Node, tag: IndexTag, t: Timestamp) -> bool {
    forall|i: int|
        0 <= i < es.len() && #[trigger] entry_matches(es[i], subject, tag) ==> es[i].at <= t
}

/// `e` after a tombstoning pass for live entries `subject -> target` with
/// tag `tag`: tombstoned when it matches, untouched otherwise.
pub open spec fn mask_exact(e: IndexEntry, subject: Node, target: Node, tag: IndexTag) -> IndexEntry {
    if entry_matches(e, subject, tag) && e.target == target {
        IndexEntry { deleted: true, ..e }
    } else {
        e
    }
}

/// `e` after a tombstoning pass for all live entries from `subject` with
/// tag `tag`.
pub open spec fn mask_from(e: IndexEntry, subject: Node, tag: IndexTag) -> IndexEntry {
    if entry_matches(e, subject, tag) {
        IndexEntry { deleted: true, ..e }
    } else {
        e
    }
}

/// `e` after a tombstoning pass for all live entries onto `target` with
/// tag `tag`.
pub open spec fn mask_to(e: IndexEntry, target: Node, tag: IndexTag) -> IndexEntry {
    if !e.deleted && e.target == target && e.tag == tag {
        IndexEntry { deleted: true, ..e }
    } else {
        e
    }
}

impl Store {
    /// Whether a record node points inside the store.
    pub open spec fn node_in_bounds(self, n: Node) -> bool {
        match n {
            Node::Record(id) => id < self.records@.len(),
            Node::Principal(_) => true,
            Node::Anchor(_) => true,
        }
    }

    /// Well-formedness: every index entry points at records the store holds.
    pub open spec fn wf(self) -> bool {
        forall|i: int|
            0 <= i < self.entries@.len() ==> self.node_in_bounds(
                (#[trigger] self.entries@[i]).subject,
            ) && self.node_in_bounds(self.entries@[i].target)
    }

    /// An empty snapshot.
    pub fn new() -> (s: Store)
        ensures
            s.records@ == Seq::<Record>::empty(),
            s.entries@ == Seq::<IndexEntry>::empty(),
            s.wf(),
    {
        Store { records: Vec::new(), entries: Vec::new() }
    }

    /// Append an immutable record; its id is its position.
    pub fn put_record(&mut self, r: Record) -> (id: RecordId)
        requires
            old(self).wf(),
        ensures
            final(self).records@ == old(self).records@.push(r),
            final(self).entries == old(self).entries,
            id == old(self).records@.len(),
            final(self).wf(),
    {
        let id = self.records.len();
        self.records.push(r);
        id
    }

    /// Fetch a record by id; a record the store does not hold, or one that
    /// has been tombstoned, is absent.
    pub fn get_record(&self, id: RecordId) -> (r: Option<&Record>)
        ensures
            (r is Some) == (id < self.records@.len() && !self.records@[id as int].deleted),
            r matches Some(rec) ==> *rec == self.records@[id as int],
    {
        if id < self.records.len() {
            let rec = &self.records[id];
            if rec.deleted {
                None
            } else {
                Some(rec)
            }
        } else {
            None
        }
    }

    /// Tombstone a record.  Not exposed outside the library: user records
    /// are never deleted; only the organization teardown removes records.
    pub(crate) fn delete_record(&mut self, id: RecordId)
        requires
            old(self).wf(),
            id < old(self).records@.len(),
        ensures
            final(self).records@ == old(self).records@.update(
                id as int,
                (Record { deleted: true, ..old(self).records@[id as int] }),
            ),
            final(self).entries == old(self).entries,
            final(self).wf(),
    {
        self.records[id].deleted = true;
    }

    /// Append a live index entry `subject -> target` with tag `tag`,
    /// stamped `at`.
    pub fn put_entry(&mut self, subject: Node, target: Node, tag: IndexTag, at: Timestamp)
        requires
            old(self).wf(),
            old(self).node_in_bounds(subject),
            old(self).node_in_bounds(target),
        ensures
            final(self).records == old(self).records,
            final(self).entries@ == old(self).entries@.push(
                (IndexEntry { subject, target, tag, at, deleted: false }),
            ),
            final(self).wf(),
    {
        self.entries.push(IndexEntry { subject, target, tag, at, deleted: false });
    }
}

/// What appending an entry does to every link query: the new index answers
/// exactly as the old one, except for the appended pointer itself.
pub proof fn lemma_link_push(es: Seq<IndexEntry>, e: IndexEntry)
    ensures
        forall|s2: Node, t2: Node, g2: IndexTag|
            #[trigger] has_link(es.push(e), s2, t2, g2) <==> (has_link(es, s2, t2, g2) || (
            entry_matches(e, s2, g2) && e.target == t2)),
        forall|s2: Node, g2: IndexTag|
            #[trigger] has_link_from(es.push(e), s2, g2) <==> (has_link_from(es, s2, g2)
                || entry_matches(e, s2, g2)),
        forall|s2: Node, g2: IndexTag, x2: Node|
            #[trigger] has_other_link(es.push(e), s2, g2, x2) <==> (has_other_link(es, s2, g2, x2)
                || (entry_matches(e, s2, g2) && e.target != x2)),
{
    let es2 = es.push(e);
    assert forall|s2: Node, t2: Node, g2: IndexTag|
        #[trigger] has_link(es2, s2, t2, g2) implies (has_link(es, s2, t2, g2) || (entry_matches(
        e,
        s2,
        g2,
    ) && e.target == t2)) by {
        let i = choose|i: int|
            0 <= i < es2.len() && #[trigger] entry_matches(es2[i], s2, g2) && es2[i].target == t2;
        if i < es.len() {
            assert(es[i] == es2[i]);
            assert(entry_matches(es[i], s2, g2));
        } else {
            assert(es2[i] == e);
        }
    }
    assert forall|s2: Node, t2: Node, g2: IndexTag|
        (has_link(es, s2, t2, g2) || (entry_matches(e, s2, g2) && e.target
            == t2)) implies #[trigger] has_link(es2, s2, t2, g2) by {
        if has_link(es, s2, t2, g2) {
            let i = choose|i: int|
                0 <= i < es.len() && #[trigger] entry_matches(es[i], s2, g2) && es[i].target == t2;
            assert(es2[i] == es[i]);
            assert(entry_matches(es2[i], s2, g2));
        } else {
            assert(es2[es.len() as int] == e);
            assert(entry_matches(es2[es.len() as int], s2, g2));
        }
    }
    assert forall|s2: Node, g2: IndexTag|
        #[trigger] has_link_from(es2, s2, g2) implies (has_link_from(es, s2, g2) || entry_matches(
        e,
        s2,
        g2,
    )) by {
        let i = choose|i: int| 0 <= i < es2.len() && #[trigger] entry_matches(es2[i], s2, g2);
        if i < es.len() {
            assert(es[i] == es2[i]);
            assert(entry_matches(es[i], s2, g2));
        } else {
            assert(es2[i] == e);
        }
    }
    assert forall|s2: Node, g2: IndexTag|
        (has_link_from(es, s2, g2) || entry_matches(e, s2, g2)) implies #[trigger] has_link_from(
        es2,
        s2,
        g2,
    ) by {
        if has_link_from(es, s2, g2) {
            let i = choose|i: int| 0 <= i < es.len() && #[trigger] entry_matches(es[i], s2, g2);
            assert(es2[i] == es[i]);
            assert(entry_matches(es2[i], s2, g2));
        } else {
            assert(entry_matches(es2[es.len() as int], s2, g2));
        }
    }
    assert forall|s2: Node, g2: IndexTag, x2: Node|
        #[trigger] has_other_link(es2, s2, g2, x2) implies (has_other_link(es, s2, g2, x2) || (
        entry_matches(e, s2, g2) && e.target != x2)) by {
        let i = choose|i: int|
            0 <= i < es2.len() && #[trigger] entry_matches(es2[i], s2, g2) && es2[i].target != x2;
        if i < es.len() {
            assert(es[i] == es2[i]);
            assert(entry_matches(es[i], s2, g2));
        } else {
            assert(es2[i] == e);
        }
    }
    assert forall|s2: Node, g2: IndexTag, x2: Node|
        (has_other_link(es, s2, g2, x2) || (entry_matches(e, s2, g2) && e.target
            != x2)) implies #[trigger] has_other_link(es2, s2, g2, x2) by {
        if has_other_link(es, s2, g2, x2) {
            let i = choose|i: int|
                0 <= i < es.len() && #[trigger] entry_matches(es[i], s2, g2) && es[i].target != x2;
            assert(es2[i] == es[i]);
            assert(entry_matches(es2[i], s2, g2));
        } else {
            assert(entry_matches(es2[es.len() as int], s2, g2));
        }
    }
}


/// What a tombstoning pass for one pointer does to every link query.
pub proof fn lemma_link_mask_exact(
    es1: Seq<IndexEntry>,
    es2: Seq<IndexEntry>,
    subject: Node,
    target: Node,
    tag: IndexTag,
)
    requires
        es2.len() == es1.len(),
        forall|i: int| 0 <= i < es1.len() ==> es2[i] == mask_exact(es1[i], subject, target, tag),
    ensures
        forall|s2: Node, t2: Node, g2: IndexTag|
            #[trigger] has_link(es2, s2, t2, g2) <==> (has_link(es1, s2, t2, g2) && !(s2 == subject
                && t2 == target && g2 == tag)),
{
    assert forall|s2: Node, t2: Node, g2: IndexTag|
        #[trigger] has_link(es2, s2, t2, g2) implies (has_link(es1, s2, t2, g2) && !(s2 == subject
        && t2 == target && g2 == tag)) by {
        let i = choose|i: int|
            0 <= i < es2.len() && #[trigger] entry_matches(es2[i], s2, g2) && es2[i].target == t2;
        assert(es2[i] == mask_exact(es1[i], subject, target, tag));
        assert(es2[i] == es1[i]);
        assert(entry_matches(es1[i], s2, g2));
    }
    assert forall|s2: Node, t2: Node, g2: IndexTag|
        (has_link(es1, s2, t2, g2) && !(s2 == subject && t2 == target && g2
            == tag)) implies #[trigger] has_link(es2, s2, t2, g2) by {
        let i = choose|i: int|
            0 <= i < es1.len() && #[trigger] entry_matches(es1[i], s2, g2) && es1[i].target == t2;
        assert(es2[i] == mask_exact(es1[i], subject, target, tag));
        assert(es2[i] == es1[i]);
        assert(entry_matches(es2[i], s2, g2));
    }
}

/// What a tombstoning pass for every pointer out of a subject does to every
/// link query.
pub proof fn lemma_link_mask_from(
    es1: Seq<IndexEntry>,
    es2: Seq<IndexEntry>,
    subject: Node,
    tag: IndexTag,
)
    requires
        es2.len() == es1.len(),
        forall|i: int| 0 <= i < es1.len() ==> es2[i] == mask_from(es1[i], subject, tag),
    ensures
        forall|s2: Node, t2: Node, g2: IndexTag|
            #[trigger] has_link(es2, s2, t2, g2) <==> (has_link(es1, s2, t2, g2) && !(s2 == subject
                && g2 == tag)),
        forall|s2: Node, g2: IndexTag|
            #[trigger] has_link_from(es2, s2, g2) <==> (has_link_from(es1, s2, g2) && !(s2
                == subject && g2 == tag)),
{
    assert forall|s2: Node, t2: Node, g2: IndexTag|
        #[trigger] has_link(es2, s2, t2, g2) implies (has_link(es1, s2, t2, g2) && !(s2 == subject
        && g2 == tag)) by {
        let i = choose|i: int|
            0 <= i < es2.len() && #[trigger] entry_matches(es2[i], s2, g2) && es2[i].target == t2;
        assert(es2[i] == mask_from(es1[i], subject, tag));
        assert(es2[i] == es1[i]);
        assert(entry_matches(es1[i], s2, g2));
    }
    assert forall|s2: Node, t2: Node, g2: IndexTag|
        (has_link(es1, s2, t2, g2) && !(s2 == subject && g2 == tag)) implies #[trigger] has_link(
        es2,
        s2,
        t2,
        g2,
    ) by {
        let i = choose|i: int|
            0 <= i < es1.len() && #[trigger] entry_matches(es1[i], s2, g2) && es1[i].target == t2;
        assert(es2[i] == mask_from(es1[i], subject, tag));
        assert(es2[i] == es1[i]);
        assert(entry_matches(es2[i], s2, g2));
    }
    assert forall|s2: Node, g2: IndexTag|
        #[trigger] has_link_from(es2, s2, g2) implies (has_link_from(es1, s2, g2) && !(s2
        == subject && g2 == tag)) by {
        let i = choose|i: int| 0 <= i < es2.len() && #[trigger] entry_matches(es2[i], s2, g2);
        assert(es2[i] == mask_from(es1[i], subject, tag));
        assert(es2[i] == es1[i]);
        assert(entry_matches(es1[i], s2, g2));
    }
    assert forall|s2: Node, g2: IndexTag|
        (has_link_from(es1, s2, g2) && !(s2 == subject && g2
            == tag)) implies #[trigger] has_link_from(es2, s2, g2) by {
        let i = choose|i: int| 0 <= i < es1.len() && #[trigger] entry_matches(es1[i], s2, g2);
        assert(es2[i] == mask_from(es1[i], subject, tag));
        assert(es2[i] == es1[i]);
        assert(entry_matches(es2[i], s2, g2));
    }
}

/// What a tombstoning pass for every pointer onto a target does to every
/// link query.
pub proof fn lemma_link_mask_to(
    es1: Seq<IndexEntry>,
    es2: Seq<IndexEntry>,
    target: Node,
    tag: IndexTag,
)
    requires
        es2.len() == es1.len(),
        forall|i: int| 0 <= i < es1.len() ==> es2[i] == mask_to(es1[i], target, tag),
    ensures
        forall|s2: Node, t2: Node, g2: IndexTag|
            #[trigger] has_link(es2, s2, t2, g2) <==> (has_link(es1, s2, t2, g2) && !(t2 == target
                && g2 == tag)),
{
    assert forall|s2: Node, t2: Node, g2: IndexTag|
        #[trigger] has_link(es2, s2, t2, g2) implies (has_link(es1, s2, t2, g2) && !(t2 == target
        && g2 == tag)) by {
        let i = choose|i: int|
            0 <= i < es2.len() && #[trigger] entry_matches(es2[i], s2, g2) && es2[i].target == t2;
        assert(es2[i] == mask_to(es1[i], target, tag));
        assert(es2[i] == es1[i]);
        assert(entry_matches(es1[i], s2, g2));
    }
    assert forall|s2: Node, t2: Node, g2: IndexTag|
        (has_link(es1, s2, t2, g2) && !(t2 == target && g2 == tag)) implies #[trigger] has_link(
        es2,
        s2,
        t2,
        g2,
    ) by {
        let i = choose|i: int|
            0 <= i < es1.len() && #[trigger] entry_matches(es1[i], s2, g2) && es1[i].target == t2;
        assert(es2[i] == mask_to(es1[i], target, tag));
        assert(es2[i] == es1[i]);
        assert(entry_matches(es2[i], s2, g2));
    }
}


impl Store {
    /// Tombstone every live entry `subject -> target` with tag `tag`.
    pub fn delete_matching(&mut self, subject: Node, target: Node, tag: IndexTag)
        requires
            old(self).wf(),
        ensures
            final(self).records == old(self).records,
            final(self).entries@.len() == old(self).entries@.len(),
            forall|i: int|
                0 <= i < old(self).entries@.len() ==> final(self).entries@[i] == mask_exact(
                    old(self).entries@[i],
                    subject,
                    target,
                    tag,
                ),
            forall|s2: Node, t2: Node, g2: IndexTag|
                #[trigger] has_link(final(self).entries@, s2, t2, g2) <==> (has_link(
                    old(self).entries@,
                    s2,
                    t2,
                    g2,
                ) && !(s2 == subject && t2 == target && g2 == tag)),
            final(self).wf(),
    {
        let n = self.entries.len();
        let mut k: usize = 0;
        while k < n
            invariant
                n == self.entries@.len(),
                n == old(self).entries@.len(),
                k <= n,
                self.records == old(self).records,
                forall|i: int|
                    0 <= i < k ==> self.entries@[i] == mask_exact(
                        old(self).entries@[i],
                        subject,
                        target,
                        tag,
                    ),
                forall|i: int| k <= i < n ==> self.entries@[i] == old(self).entries@[i],
                old(self).wf(),
            decreases n - k,
        {
            let e = self.entries[k];
            if !e.deleted && e.subject == subject && e.target == target && e.tag == tag {
                self.entries[k].deleted = true;
            }
            k = k + 1;
        }
        proof {
            lemma_link_mask_exact(old(self).entries@, self.entries@, subject, target, tag);
            assert forall|i: int|
                0 <= i < self.entries@.len() implies self.node_in_bounds(
                (#[trigger] self.entries@[i]).subject,
            ) && self.node_in_bounds(self.entries@[i].target) by {
                assert(old(self).node_in_bounds(old(self).entries@[i].subject));
                assert(old(self).node_in_bounds(old(self).entries@[i].target));
            }
        }
    }

    /// Tombstone every live entry out of `subject` with tag `tag`.
    pub fn delete_from(&mut self, subject: Node, tag: IndexTag)
        requires
            old(self).wf(),
        ensures
            final(self).records == old(self).records,
            final(self).entries@.len() == old(self).entries@.len(),
            forall|i: int|
                0 <= i < old(self).entries@.len() ==> final(self).entries@[i] == mask_from(
                    old(self).entries@[i],
                    subject,
                    tag,
                ),
            forall|s2: Node, t2: Node, g2: IndexTag|
                #[trigger] has_link(final(self).entries@, s2, t2, g2) <==> (has_link(
                    old(self).entries@,
                    s2,
                    t2,
                    g2,
                ) && !(s2 == subject && g2 == tag)),
            forall|s2: Node, g2: IndexTag|
                #[trigger] has_link_from(final(self).entries@, s2, g2) <==> (has_link_from(
                    old(self).entries@,
                    s2,
                    g2,
                ) && !(s2 == subject && g2 == tag)),
            final(self).wf(),
    {
        let n = self.entries.len();
        let mut k: usize = 0;
        while k < n
            invariant
                n == self.entries@.len(),
                n == old(self).entries@.len(),
                k <= n,
                self.records == old(self).records,
                forall|i: int|
                    0 <= i < k ==> self.entries@[i] == mask_from(
                        old(self).entries@[i],
                        subject,
                        tag,
                    ),
                forall|i: int| k <= i < n ==> self.entries@[i] == old(self).entries@[i],
                old(self).wf(),
            decreases n - k,
        {
            let e = self.entries[k];
            if !e.deleted && e.subject == subject && e.tag == tag {
                self.entries[k].deleted = true;
            }
            k = k + 1;
        }
        proof {
            lemma_link_mask_from(old(self).entries@, self.entries@, subject, tag);
            assert forall|i: int|
                0 <= i < self.entries@.len() implies self.node_in_bounds(
                (#[trigger] self.entries@[i]).subject,
            ) && self.node_in_bounds(self.entries@[i].target) by {
                assert(old(self).node_in_bounds(old(self).entries@[i].subject));
                assert(old(self).node_in_bounds(old(self).entries@[i].target));
            }
        }
    }

    /// Tombstone every live entry onto `target` with tag `tag`.
    pub fn delete_to(&mut self, target: Node, tag: IndexTag)
        requires
            old(self).wf(),
        ensures
            final(self).records == old(self).records,
            final(self).entries@.len() == old(self).entries@.len(),
            forall|i: int|
                0 <= i < old(self).entries@.len() ==> final(self).entries@[i] == mask_to(
                    old(self).entries@[i],
                    target,
                    tag,
                ),
            forall|s2: Node, t2: Node, g2: IndexTag|
                #[trigger] has_link(final(self).entries@, s2, t2, g2) <==> (has_link(
                    old(self).entries@,
                    s2,
                    t2,
                    g2,
                ) && !(t2 == target && g2 == tag)),
            final(self).wf(),
    {
        let n = self.entries.len();
        let mut k: usize = 0;
        while k < n
            invariant
                n == self.entries@.len(),
                n == old(self).entries@.len(),
                k <= n,
                self.records == old(self).records,
                forall|i: int|
                    0 <= i < k ==> self.entries@[i] == mask_to(
                        old(self).entries@[i],
                        target,
                        tag,
                    ),
                forall|i: int| k <= i < n ==> self.entries@[i] == old(self).entries@[i],
                old(self).wf(),
            decreases n - k,
        {
            let e = self.entries[k];
            if !e.deleted && e.target == target && e.tag == tag {
                self.entries[k].deleted = true;
            }
            k = k + 1;
        }
        proof {
            lemma_link_mask_to(old(self).entries@, self.entries@, target, tag);
            assert forall|i: int|
                0 <= i < self.entries@.len() implies self.node_in_bounds(
                (#[trigger] self.entries@[i]).subject,
            ) && self.node_in_bounds(self.entries@[i].target) by {
                assert(old(self).node_in_bounds(old(self).entries@[i].subject));
                assert(old(self).node_in_bounds(old(self).entries@[i].target));
            }
        }
    }

    /// Whether a live entry `subject -> target` with tag `tag` exists.
    pub fn contains_link(&self, subject: Node, target: Node, tag: IndexTag) -> (b: bool)
        ensures
            b == has_link(self.entries@, subject, target, tag),
    {
        let n = self.entries.len();
        let mut k: usize = 0;
        while k < n
            invariant
                n == self.entries@.len(),
                k <= n,
                forall|i: int|
                    0 <= i < k ==> !(#[trigger] entry_matches(self.entries@[i], subject, tag)
                        && self.entries@[i].target == target),
            decreases n - k,
        {
            let e = self.entries[k];
            if !e.deleted && e.subject == subject && e.target == target && e.tag == tag {
                assert(entry_matches(self.entries@[k as int], subject, tag));
                return true;
            }
            k = k + 1;
        }
        false
    }

    /// Whether any live entry out of `subject` with tag `tag` exists.
    pub fn contains_link_from(&self, subject: Node, tag: IndexTag) -> (b: bool)
        ensures
            b == has_link_from(self.entries@, subject, tag),
    {
        let n = self.entries.len();
        let mut k: usize = 0;
        while k < n
            invariant
                n == self.entries@.len(),
                k <= n,
                forall|i: int|
                    0 <= i < k ==> !(#[trigger] entry_matches(self.entries@[i], subject, tag)),
            decreases n - k,
        {
            let e = self.entries[k];
            if !e.deleted && e.subject == subject && e.tag == tag {
                assert(entry_matches(self.entries@[k as int], subject, tag));
                return true;
            }
            k = k + 1;
        }
        false
    }

    /// Whether a live entry out of `subject` with tag `tag` exists whose
    /// target is not `excl`.
    pub fn contains_other_link(&self, subject: Node, tag: IndexTag, excl: Node) -> (b: bool)
        ensures
            b == has_other_link(self.entries@, subject, tag, excl),
    {
        let n = self.entries.len();
        let mut k: usize = 0;
        while k < n
            invariant
                n == self.entries@.len(),
                k <= n,
                forall|i: int|
                    0 <= i < k ==> !(#[trigger] entry_matches(self.entries@[i], subject, tag)
                        && self.entries@[i].target != excl),
            decreases n - k,
        {
            let e = self.entries[k];
            if !e.deleted && e.subject == subject && e.tag == tag && !(e.target == excl) {
                assert(entry_matches(self.entries@[k as int], subject, tag));
                return true;
            }
            k = k + 1;
        }
        false
    }

    /// The target of the earliest live entry out of `subject` with tag
    /// `tag`, if any.
    pub fn first_target(&self, subject: Node, tag: IndexTag) -> (r: Option<Node>)
        ensures
            r == first_link_target(self.entries@, subject, tag),
    {
        let n = self.entries.len();
        let mut k: usize = 0;
        proof {
            assert(self.entries@.skip(0) =~= self.entries@);
        }
        while k < n
            invariant
                n == self.entries@.len(),
                k <= n,
                first_link_target(self.entries@, subject, tag) == first_link_target(
                    self.entries@.skip(k as int),
                    subject,
                    tag,
                ),
            decreases n - k,
        {
            let e = self.entries[k];
            proof {
                assert(self.entries@.skip(k as int)[0] == self.entries@[k as int]);
                assert(self.entries@.skip(k as int).skip(1) =~= self.entries@.skip(k as int + 1));
            }
            if !e.deleted && e.subject == subject && e.tag == tag {
                assert(entry_matches(self.entries@.skip(k as int)[0], subject, tag));
                return Some(e.target);
            }
            k = k + 1;
        }
        None
    }

    /// The targets of all live entries out of `subject` with tag `tag`, in
    /// the order the entries were appended.
    pub fn targets_of(&self, subject: Node, tag: IndexTag) -> (v: Vec<Node>)
        ensures
            v@ == link_targets(self.entries@, subject, tag),
    {
        let n = self.entries.len();
        let mut k: usize = 0;
        let mut v: Vec<Node> = Vec::new();
        while k < n
            invariant
                n == self.entries@.len(),
                k <= n,
                v@ == link_targets(self.entries@.take(k as int), subject, tag),
            decreases n - k,
        {
            let e = self.entries[k];
            proof {
                let taken = self.entries@.take(k as int + 1);
                assert(taken.drop_last() =~= self.entries@.take(k as int));
                assert(taken[taken.len() - 1] == self.entries@[k as int]);
            }
            if !e.deleted && e.subject == subject && e.tag == tag {
                v.push(e.target);
            }
            k = k + 1;
        }
        proof {
            assert(self.entries@.take(n as int) =~= self.entries@);
        }
        v
    }
}


/// What appending an entry does to the earliest-entry query: the earliest
/// live entry stays the earliest, and the appended entry is found only
/// where none existed.
pub proof fn lemma_first_target_push(
    es: Seq<IndexEntry>,
    e: IndexEntry,
    subject: Node,
    tag: IndexTag,
)
    ensures
        first_link_target(es.push(e), subject, tag) == (match first_link_target(es, subject, tag) {
            Some(t) => Some(t),
            None => if entry_matches(e, subject, tag) {
                Some(e.target)
            } else {
                None
            },
        }),
    decreases es.len(),
{
    let es2 = es.push(e);
    if es.len() == 0 {
        assert(es2[0] == e);
        assert(es2.skip(1) =~= Seq::<IndexEntry>::empty());
    } else {
        assert(es2[0] == es[0]);
        assert(es2.skip(1) =~= es.skip(1).push(e));
        lemma_first_target_push(es.skip(1), e, subject, tag);
        if entry_matches(es[0], subject, tag) {
            assert(first_link_target(es2, subject, tag) == Some(es[0].target));
            assert(first_link_target(es, subject, tag) == Some(es[0].target));
        } else {
            assert(first_link_target(es2, subject, tag) == first_link_target(
                es2.skip(1),
                subject,
                tag,
            ));
            assert(first_link_target(es, subject, tag) == first_link_target(
                es.skip(1),
                subject,
                tag,
            ));
        }
    }
}

/// A pass over the index that leaves every live entry out of `subject`
/// with tag `tag` untouched, and creates no new one, leaves the earliest
/// such entry unchanged.
pub proof fn lemma_first_target_same(
    es1: Seq<IndexEntry>,
    es2: Seq<IndexEntry>,
    subject: Node,
    tag: IndexTag,
)
    requires
        es1.len() == es2.len(),
        forall|i: int|
            0 <= i < es1.len() ==> entry_matches(#[trigger] es1[i], subject, tag) == entry_matches(
                #[trigger] es2[i],
                subject,
                tag,
            ),
        forall|i: int|
            0 <= i < es1.len() && entry_matches(#[trigger] es1[i], subject, tag) ==> es2[i]
                == es1[i],
    ensures
        first_link_target(es1, subject, tag) == first_link_target(es2, subject, tag),
    decreases es1.len(),
{
    if es1.len() > 0 {
        if !entry_matches(es1[0], subject, tag) {
            assert forall|i: int|
                0 <= i < es1.skip(1).len() implies entry_matches(
                #[trigger] es1.skip(1)[i],
                subject,
                tag,
            ) == entry_matches(#[trigger] es2.skip(1)[i], subject, tag) by {
                assert(es1.skip(1)[i] == es1[i + 1]);
                assert(es2.skip(1)[i] == es2[i + 1]);
            }
            assert forall|i: int|
                0 <= i < es1.skip(1).len() && entry_matches(
                #[trigger] es1.skip(1)[i],
                subject,
                tag,
            ) implies es2.skip(1)[i] == es1.skip(1)[i] by {
                assert(es1.skip(1)[i] == es1[i + 1]);
                assert(es2.skip(1)[i] == es2[i + 1]);
            }
            lemma_first_target_same(es1.skip(1), es2.skip(1), subject, tag);
        }
    }
}

/// The earliest live entry out of `subject` with tag `tag` exists exactly
/// when some live entry out of `subject` with tag `tag` does.
pub proof fn lemma_first_target_some(es: Seq<IndexEntry>, subject: Node, tag: IndexTag)
    ensures
        first_link_target(es, subject, tag) is Some <==> has_link_from(es, subject, tag),
        first_link_target(es, subject, tag) matches Some(t) ==> has_link(es, subject, t, tag),
    decreases es.len(),
{
    if es.len() > 0 {
        lemma_first_target_some(es.skip(1), subject, tag);
        if entry_matches(es[0], subject, tag) {
            assert(has_link(es, subject, es[0].target, tag));
        } else {
            if has_link_from(es.skip(1), subject, tag) {
                let i = choose|i: int|
                    0 <= i < es.skip(1).len() && #[trigger] entry_matches(
                        es.skip(1)[i],
                        subject,
                        tag,
                    );
                assert(es.skip(1)[i] == es[i + 1]);
                assert(entry_matches(es[i + 1], subject, tag));
            }
            if has_link_from(es, subject, tag) {
                let i = choose|i: int|
                    0 <= i < es.len() && #[trigger] entry_matches(es[i], subject, tag);
                assert(i >= 1);
                assert(es.skip(1)[i - 1] == es[i]);
                assert(entry_matches(es.skip(1)[i - 1], subject, tag));
            }
            match first_link_target(es.skip(1), subject, tag) {
                Some(t) => {
                    let i = choose|i: int|
                        0 <= i < es.skip(1).len() && #[trigger] entry_matches(
                            es.skip(1)[i],
                            subject,
                            tag,
                        ) && es.skip(1)[i].target == t;
                    assert(es.skip(1)[i] == es[i + 1]);
                    assert(entry_matches(es[i + 1], subject, tag));
                },
                None => {},
            }
        }
    }
}


/// The subjects of all live entries onto `target` with tag `tag`, in the
/// order the entries were appended.
pub open spec fn link_sources(es: Seq<IndexEntry>, target: Node, tag: IndexTag) -> Seq<Node>
    decreases es.len(),
{
    if es.len() == 0 {
        Seq::empty()
    } else if !es[es.len() - 1].deleted && es[es.len() - 1].target == target && es[es.len()
        - 1].tag == tag {
        link_sources(es.drop_last(), target, tag).push(es[es.len() - 1].subject)
    } else {
        link_sources(es.drop_last(), target, tag)
    }
}

impl Store {
    /// The subjects of all live entries onto `target` with tag `tag`, in
    /// the order the entries were appended.
    pub fn sources_of(&self, target: Node, tag: IndexTag) -> (v: Vec<Node>)
        ensures
            v@ == link_sources(self.entries@, target, tag),
    {
        let n = self.entries.len();
        let mut k: usize = 0;
        let mut v: Vec<Node> = Vec::new();
        while k < n
            invariant
                n == self.entries@.len(),
                k <= n,
                v@ == link_sources(self.entries@.take(k as int), target, tag),
            decreases n - k,
        {
            let e = self.entries[k];
            proof {
                let taken = self.entries@.take(k as int + 1);
                assert(taken.drop_last() =~= self.entries@.take(k as int));
                assert(taken[taken.len() - 1] == self.entries@[k as int]);
            }
            if !e.deleted && e.target == target && e.tag == tag {
                v.push(e.subject);
            }
            k = k + 1;
        }
        proof {
            assert(self.entries@.take(n as int) =~= self.entries@);
        }
        v
    }
}


/// The targets listing is sound and complete: a node stands in
/// `link_targets` exactly when a live entry points at it.
pub proof fn lemma_link_targets_complete(es: Seq<IndexEntry>, subject: Node, tag: IndexTag)
    ensures
        forall|t: Node|
            #[trigger] link_targets(es, subject, tag).contains(t) <==> has_link(
                es,
                subject,
                t,
                tag,
            ),
    decreases es.len(),
{
    if es.len() > 0 {
        let prefix = es.drop_last();
        let last = es.last();
        assert(es =~= prefix.push(last));
        lemma_link_targets_complete(prefix, subject, tag);
        lemma_link_push(prefix, last);
        let lt = link_targets(es, subject, tag);
        let ltp = link_targets(prefix, subject, tag);
        if entry_matches(last, subject, tag) {
            assert(lt == ltp.push(last.target));
            assert forall|t: Node| #[trigger] lt.contains(t) implies (ltp.contains(t) || t
                == last.target) by {
                let i = choose|i: int| 0 <= i < lt.len() && lt[i] == t;
                if i < ltp.len() {
                    assert(ltp[i] == t);
                }
            }
            assert forall|t: Node| ltp.contains(t) implies #[trigger] lt.contains(t) by {
                let i = choose|i: int| 0 <= i < ltp.len() && ltp[i] == t;
                assert(lt[i] == t);
            }
            assert(lt.contains(last.target)) by {
                assert(lt[lt.len() - 1] == last.target);
            }
        } else {
            assert(lt == ltp);
        }
    }
}

} // verus!
