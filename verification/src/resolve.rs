use vstd::prelude::*;
use vstd::string::StringExecFns;

use crate::errors::Error;
use crate::store::{entry_matches, IndexEntry, IndexTag, Node, Record, Store};
use crate::types::RecordId;

verus! {

/// The index, among the first `n` index entries, of the winning revision
/// entry for the original record `orig`: the live revision entry with the
/// greatest timestamp, ties broken towards the entry appended last.
pub open spec fn best_revision_upto(es: Seq<IndexEntry>, orig: RecordId, n: int) -> Option<int>
    decreases n,
{
    if n <= 0 || n > es.len() {
        None
    } else {
        let prev = best_revision_upto(es, orig, n - 1);
        if entry_matches(es[n - 1], Node::Record(orig), IndexTag::Revision) {
            match prev {
                None => Some(n - 1),
                Some(j) => if es[n - 1].at >= es[j].at {
                    Some(n - 1)
                } else {
                    Some(j)
                },
            }
        } else {
            prev
        }
    }
}

/// The index of the winning revision entry for `orig`, if any.
pub open spec fn best_revision(es: Seq<IndexEntry>, orig: RecordId) -> Option<int> {
    best_revision_upto(es, orig, es.len() as int)
}

/// The winning revision entry is in range and is a live revision entry of
/// `orig`, and no live revision entry of `orig` is stamped later.
pub proof fn lemma_best_revision_upto_props(es: Seq<IndexEntry>, orig: RecordId, n: int)
    requires
        n <= es.len(),
    ensures
        best_revision_upto(es, orig, n) matches Some(j) ==> 0 <= j < n && entry_matches(
            es[j],
            Node::Record(orig),
            IndexTag::Revision,
        ) && forall|i: int|
            0 <= i < n && #[trigger] entry_matches(es[i], Node::Record(orig), IndexTag::Revision)
                ==> es[i].at <= es[j].at,
        best_revision_upto(es, orig, n) is None ==> forall|i: int|
            0 <= i < n ==> !(#[trigger] entry_matches(es[i], Node::Record(orig), IndexTag::Revision)),
    decreases n,
{
    if n > 0 {
        lemma_best_revision_upto_props(es, orig, n - 1);
    }
}

/// Two entry sequences that agree on their first `n` entries pick the same
/// winning revision among them.
pub proof fn lemma_best_revision_upto_agree(
    es1: Seq<IndexEntry>,
    es2: Seq<IndexEntry>,
    orig: RecordId,
    n: int,
)
    requires
        n <= es1.len(),
        n <= es2.len(),
        forall|i: int| 0 <= i < n ==> es1[i] == es2[i],
    ensures
        best_revision_upto(es1, orig, n) == best_revision_upto(es2, orig, n),
    decreases n,
{
    if n > 0 {
        lemma_best_revision_upto_agree(es1, es2, orig, n - 1);
        lemma_best_revision_upto_props(es1, orig, n - 1);
        lemma_best_revision_upto_props(es2, orig, n - 1);
    }
}

/// Appending a revision entry of `orig` stamped no earlier than every live
/// revision entry already present makes it the winning one.
pub proof fn lemma_best_revision_push_latest(es: Seq<IndexEntry>, e: IndexEntry, orig: RecordId)
    requires
        entry_matches(e, Node::Record(orig), IndexTag::Revision),
        forall|i: int|
            0 <= i < es.len() && #[trigger] entry_matches(
                es[i],
                Node::Record(orig),
                IndexTag::Revision,
            ) ==> es[i].at <= e.at,
    ensures
        best_revision(es.push(e), orig) == Some(es.len() as int),
{
    let es2 = es.push(e);
    lemma_best_revision_upto_agree(es, es2, orig, es.len() as int);
    lemma_best_revision_upto_props(es, orig, es.len() as int);
    assert(es2[es.len() as int] == e);
}

/// Appending an entry that is not a live revision entry of `orig` leaves
/// the winning revision entry unchanged.
pub proof fn lemma_best_revision_push_other(es: Seq<IndexEntry>, e: IndexEntry, orig: RecordId)
    requires
        !entry_matches(e, Node::Record(orig), IndexTag::Revision),
    ensures
        best_revision(es.push(e), orig) == best_revision(es, orig),
{
    let es2 = es.push(e);
    lemma_best_revision_upto_agree(es, es2, orig, es.len() as int);
    assert(es2[es.len() as int] == e);
}

/// A pass over the index that leaves every live revision entry of `orig`
/// untouched, and turns no other entry into one, leaves the winning
/// revision entry unchanged.
pub proof fn lemma_best_revision_same_revisions(
    es1: Seq<IndexEntry>,
    es2: Seq<IndexEntry>,
    orig: RecordId,
    n: int,
)
    requires
        n <= es1.len(),
        es1.len() == es2.len(),
        forall|i: int|
            0 <= i < es1.len() ==> entry_matches(#[trigger] es1[i], Node::Record(orig), IndexTag::Revision)
                == entry_matches(#[trigger] es2[i], Node::Record(orig), IndexTag::Revision),
        forall|i: int|
            0 <= i < es1.len() && entry_matches(
                #[trigger] es1[i],
                Node::Record(orig),
                IndexTag::Revision,
            ) ==> es2[i] == es1[i],
    ensures
        best_revision_upto(es1, orig, n) == best_revision_upto(es2, orig, n),
    decreases n,
{
    if n > 0 {
        lemma_best_revision_same_revisions(es1, es2, orig, n - 1);
        lemma_best_revision_upto_props(es1, orig, n - 1);
        lemma_best_revision_upto_props(es2, orig, n - 1);
    }
}

/// The id of the record that the revision chain of `orig` currently
/// resolves to: the target of the winning revision entry, or `orig` itself
/// when no revision entry exists; absent when the record it names cannot
/// be fetched.
pub open spec fn resolved_id(s: Store, orig: RecordId) -> Option<RecordId> {
    match best_revision(s.entries@, orig) {
        None => if orig < s.records@.len() && !s.records@[orig as int].deleted {
            Some(orig)
        } else {
            None
        },
        Some(j) => match s.entries@[j].target {
            Node::Record(t) => if t < s.records@.len() && !s.records@[t as int].deleted {
                Some(t)
            } else {
                None
            },
            Node::Principal(_) => None,
            Node::Anchor(_) => None,
        },
    }
}

/// The index of the winning revision entry for `orig`, walking the
/// snapshot of the index.
pub fn best_revision_index(s: &Store, orig: RecordId) -> (r: Option<usize>)
    ensures
        r is None <==> best_revision(s.entries@, orig) is None,
        r matches Some(u) ==> best_revision(s.entries@, orig) == Some(u as int) && u
            < s.entries@.len(),
{
    let n = s.entries.len();
    let mut k: usize = 0;
    let mut best: Option<usize> = None;
    while k < n
        invariant
            n == s.entries@.len(),
            k <= n,
            best is None <==> best_revision_upto(s.entries@, orig, k as int) is None,
            best matches Some(u) ==> best_revision_upto(s.entries@, orig, k as int) == Some(
                u as int,
            ) && u < k,
        decreases n - k,
    {
        let e = s.entries[k];
        if !e.deleted && e.subject == Node::Record(orig) && e.tag == IndexTag::Revision {
            assert(entry_matches(s.entries@[k as int], Node::Record(orig), IndexTag::Revision));
            best = match best {
                None => Some(k),
                Some(j) => if e.at >= s.entries[j].at {
                    Some(k)
                } else {
                    Some(j)
                },
            };
        }
        k = k + 1;
    }
    best
}

/// Resolve the revision chain of `orig` and fetch the record it points at:
/// the record of the latest revision, or the original record itself when
/// no revision entry is visible.  Fails with `NotFound` when the resolved
/// record cannot be fetched — a storage or propagation gap, not corruption.
pub fn get_latest_record<'a>(s: &'a Store, orig: RecordId) -> (r: Result<&'a Record, Error>)
    ensures
        (match resolved_id(*s, orig) {
            Some(id) => r matches Ok(rec) && *rec == s.records@[id as int] && !rec.deleted,
            None => r matches Err(e) && e is NotFound,
        }),
{
    let best = best_revision_index(s, orig);
    match best {
        None => {
            match s.get_record(orig) {
                Some(rec) => Ok(rec),
                None => Err(Error::NotFound(String::from_str("could not find the record"))),
            }
        },
        Some(j) => {
            let e = s.entries[j];
            match e.target {
                Node::Record(t) => {
                    match s.get_record(t) {
                        Some(rec) => Ok(rec),
                        None => Err(
                            Error::NotFound(String::from_str("missing revision target")),
                        ),
                    }
                },
                _ => Err(Error::NotFound(String::from_str("missing revision target"))),
            }
        },
    }
}


/// The id of the record the revision chain of `orig` resolves to, if the
/// record it names can be fetched.
pub fn resolve_latest_id(s: &Store, orig: RecordId) -> (r: Option<RecordId>)
    ensures
        r == resolved_id(*s, orig),
{
    let best = best_revision_index(s, orig);
    match best {
        None => {
            if orig < s.records.len() && !s.records[orig].deleted {
                Some(orig)
            } else {
                None
            }
        },
        Some(j) => {
            let e = s.entries[j];
            match e.target {
                Node::Record(t) => {
                    if t < s.records.len() && !s.records[t].deleted {
                        Some(t)
                    } else {
                        None
                    }
                },
                _ => None,
            }
        },
    }
}


/// The records a sequence of revision links points at, in order, skipping
/// links whose record cannot be fetched — a propagation gap, tolerated on
/// listing.
pub open spec fn fetched_records(s: Store, ids: Seq<Node>) -> Seq<Record>
    decreases ids.len(),
{
    if ids.len() == 0 {
        Seq::empty()
    } else {
        let rest = fetched_records(s, ids.drop_last());
        match ids.last() {
            Node::Record(t) => if t < s.records@.len() && !s.records@[t as int].deleted {
                rest.push(s.records@[t as int])
            } else {
                rest
            },
            Node::Principal(_) => rest,
            Node::Anchor(_) => rest,
        }
    }
}

/// Every revision of the chain of `orig`: the original record first, then
/// the records its revision entries point at, in the order the entries
/// were appended.  An original that cannot be fetched yields an empty
/// listing.
pub fn get_all_revisions_for_entry<'a>(s: &'a Store, orig: RecordId) -> (v: Vec<&'a Record>)
    ensures
        (orig >= s.records@.len() || s.records@[orig as int].deleted) ==> v@.len() == 0,
        orig < s.records@.len() && !s.records@[orig as int].deleted ==> ({
            let fetched = fetched_records(
                *s,
                crate::store::link_targets(s.entries@, Node::Record(orig), IndexTag::Revision),
            );
            &&& v@.len() == 1 + fetched.len()
            &&& *v@[0] == s.records@[orig as int]
            &&& forall|i: int| 0 <= i < fetched.len() ==> *v@[i + 1] == fetched[i]
        }),
{
    let mut v: Vec<&Record> = Vec::new();
    let first = match s.get_record(orig) {
        Some(rec) => rec,
        None => {
            return v;
        },
    };
    v.push(first);
    let ids = s.targets_of(Node::Record(orig), IndexTag::Revision);
    let n = ids.len();
    let mut k: usize = 0;
    proof {
        assert(ids@.take(0) =~= Seq::<Node>::empty());
    }
    while k < n
        invariant
            n == ids@.len(),
            k <= n,
            orig < s.records@.len(),
            v@.len() == 1 + fetched_records(*s, ids@.take(k as int)).len(),
            *v@[0] == s.records@[orig as int],
            forall|i: int|
                0 <= i < fetched_records(*s, ids@.take(k as int)).len() ==> *v@[i + 1]
                    == fetched_records(*s, ids@.take(k as int))[i],
        decreases n - k,
    {
        proof {
            let taken = ids@.take(k as int + 1);
            assert(taken.drop_last() =~= ids@.take(k as int));
            assert(taken.last() == ids@[k as int]);
        }
        match ids[k] {
            Node::Record(t) => {
                match s.get_record(t) {
                    Some(rec) => {
                        v.push(rec);
                    },
                    None => {},
                }
            },
            _ => {},
        }
        k = k + 1;
    }
    proof {
        assert(ids@.take(n as int) =~= ids@);
    }
    v
}

} // verus!
