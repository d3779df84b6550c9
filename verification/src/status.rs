use vstd::prelude::*;
use vstd::string::StringExecFns;

use crate::types::{Timestamp, MICROS_PER_DAY, MICROS_PER_HOUR};

verus! {

/// The moderation status of an entity.
///
/// A status is stored as a tagged value, validated at the boundary, so a
/// stored status can never be unparseable.  `Pending` is the state every
/// entity starts in; a temporary suspension carries the instant it ends.
#[derive(Clone, Debug, PartialEq, Eq)]
pub enum Status {
    Pending,
    Accepted,
    Rejected,
    SuspendedTemporarily { reason: String, until: Timestamp },
    SuspendedIndefinitely { reason: String },
}

impl Status {
    /// The initial status of every entity.
    pub fn pending() -> (r: Status)
        ensures
            r == Status::Pending,
    {
        Status::Pending
    }

    /// The status of an entity approved by an administrator.
    pub fn accept() -> (r: Status)
        ensures
            r == Status::Accepted,
    {
        Status::Accepted
    }

    /// The status of an entity turned down by an administrator.
    pub fn reject() -> (r: Status)
        ensures
            r == Status::Rejected,
    {
        Status::Rejected
    }

    /// A suspension for `reason`: indefinite when `span` is `None`, and
    /// otherwise until `days` days past the instant `now`, given as
    /// `Some((days, now))`.
    pub fn suspend(reason: &str, span: Option<(i64, Timestamp)>) -> (r: Status)
        requires
            (match span {
                Some((days, now)) => i64::MIN <= now + days * MICROS_PER_DAY <= i64::MAX,
                None => true,
            }),
        ensures
            span is None ==> (r matches Status::SuspendedIndefinitely { reason: rs }
                && rs@ == reason@),
            (match span {
                Some((days, now)) => (r matches Status::SuspendedTemporarily { reason: rs, until }
                    && rs@ == reason@
                    && until == now + days * MICROS_PER_DAY),
                None => true,
            }),
    {
        match span {
            None => Status::SuspendedIndefinitely { reason: String::from_str(reason) },
            Some((days, now)) => {
                let wide: i128 = now as i128 + (days as i128) * (MICROS_PER_DAY as i128);
                Status::SuspendedTemporarily {
                    reason: String::from_str(reason),
                    until: wide as i64,
                }
            },
        }
    }

    /// A short label naming the kind of the status.
    pub fn status_type(&self) -> (r: String)
        ensures
            *self is Pending ==> r@ == "pending"@,
            *self is Accepted ==> r@ == "accepted"@,
            *self is Rejected ==> r@ == "rejected"@,
            *self is SuspendedTemporarily ==> r@ == "suspended temporarily"@,
            *self is SuspendedIndefinitely ==> r@ == "suspended indefinitely"@,
    {
        match self {
            Status::Pending => String::from_str("pending"),
            Status::Accepted => String::from_str("accepted"),
            Status::Rejected => String::from_str("rejected"),
            Status::SuspendedTemporarily { .. } => String::from_str("suspended temporarily"),
            Status::SuspendedIndefinitely { .. } => String::from_str("suspended indefinitely"),
        }
    }

    /// The reason of a suspension, and `None` for any other status.
    pub fn reason(&self) -> (r: Option<&String>)
        ensures
            *self matches Status::SuspendedTemporarily { reason, .. } ==> (r matches Some(m)
                && m == reason),
            *self matches Status::SuspendedIndefinitely { reason } ==> (r matches Some(m)
                && m == reason),
            *self is Pending || *self is Accepted || *self is Rejected ==> r is None,
    {
        match self {
            Status::SuspendedTemporarily { reason, .. } => Some(reason),
            Status::SuspendedIndefinitely { reason } => Some(reason),
            _ => None,
        }
    }

    /// The instant a temporary suspension ends, and `None` for any other
    /// status.
    pub fn suspended_until(&self) -> (r: Option<Timestamp>)
        ensures
            *self matches Status::SuspendedTemporarily { until, .. } ==> r == Some(until),
            !(*self is SuspendedTemporarily) ==> r is None,
    {
        match self {
            Status::SuspendedTemporarily { until, .. } => Some(*until),
            _ => None,
        }
    }

    /// The time left on a temporary suspension at the instant `now`
    /// (negative once `until` has passed), and `None` for any other status.
    pub fn suspension_time_remaining(&self, now: Timestamp) -> (r: Option<i64>)
        requires
            *self matches Status::SuspendedTemporarily { until, .. } ==> i64::MIN <= until - now
                <= i64::MAX,
        ensures
            *self matches Status::SuspendedTemporarily { until, .. } ==> r == Some(
                (until - now) as i64,
            ),
            !(*self is SuspendedTemporarily) ==> r is None,
    {
        match self {
            Status::SuspendedTemporarily { until, .. } => Some(*until - now),
            _ => None,
        }
    }

    /// Lift any suspension: the status becomes `Accepted`.
    pub fn unsuspend(&mut self)
        ensures
            *final(self) == Status::Accepted,
    {
        *self = Status::Accepted;
    }

    /// Lift a temporary suspension that has expired, judged at the instant
    /// `now` with a one-hour grace window: the suspension is lifted once
    /// less than one hour of it is left.  Returns whether it was lifted.
    pub fn unsuspend_if_time_passed(&mut self, now: Timestamp) -> (b: bool)
        ensures
            b == (*old(self) matches Status::SuspendedTemporarily { until, .. } && until - now
                < MICROS_PER_HOUR),
            b ==> *final(self) == Status::Accepted,
            !b ==> *final(self) == *old(self),
    {
        let u = self.suspended_until();
        match u {
            Some(until) => {
                if (until as i128) - (now as i128) < MICROS_PER_HOUR as i128 {
                    *self = Status::Accepted;
                    true
                } else {
                    false
                }
            },
            None => false,
        }
    }
}

} // verus!
