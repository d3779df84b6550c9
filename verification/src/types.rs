use vstd::prelude::*;

verus! {

/// Identifier of a record in the content store.  Records are append-only, so
/// an id is simply the position at which the record was appended.
pub type RecordId = usize;

/// Identity of a peer (an agent key in the fabric).
pub type PrincipalId = u64;

/// A point in time, in microseconds.
pub type Timestamp = i64;

/// Microseconds in one hour.
pub const MICROS_PER_HOUR: i64 = 3_600_000_000;

/// Microseconds in one day.
pub const MICROS_PER_DAY: i64 = 86_400_000_000;

/// The kinds of moderated entities.
#[derive(Clone, Copy, Debug, PartialEq, Eq, Structural)]
pub enum EntityKind {
    User,
    Organization,
}

} // verus!
