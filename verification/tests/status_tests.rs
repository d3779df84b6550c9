use moderated_records::status::Status;
use moderated_records::types::{MICROS_PER_DAY, MICROS_PER_HOUR};

const NOW: i64 = 1_700_000_000_000_000;

#[test]
fn test_create_basic_status() {
    let mut status = Status::pending();
    assert_eq!(status.status_type().as_str(), "pending");

    status = Status::accept();
    assert_eq!(status.status_type().as_str(), "accepted");

    status = Status::reject();
    assert_eq!(status.status_type().as_str(), "rejected");
}

#[test]
fn test_create_and_unsuspend_suspended_status() {
    let mut status = Status::pending();
    assert_eq!(status.status_type().as_str(), "pending");
    assert_eq!(status.reason(), None);
    assert_eq!(status.suspended_until(), None);

    status = Status::accept();
    assert_eq!(status.status_type().as_str(), "accepted");
    assert_eq!(status.reason(), None);
    assert_eq!(status.suspended_until(), None);

    status = Status::suspend("test", None);
    assert_eq!(status.status_type().as_str(), "suspended indefinitely");
    assert_eq!(status.reason(), Some(&"test".to_string()));
    assert_eq!(status.suspended_until(), None);

    status.unsuspend();
    assert_eq!(status.status_type().as_str(), "accepted");
    assert_eq!(status.reason(), None);
    assert_eq!(status.suspended_until(), None);

    let now = NOW;
    status = Status::suspend("test", Some((7, now)));
    assert_eq!(status.status_type().as_str(), "suspended temporarily");
    assert_eq!(status.reason(), Some(&"test".to_string()));

    let remaining_time = status.suspension_time_remaining(now);
    let remaining_days = remaining_time.unwrap() / MICROS_PER_DAY;
    assert_eq!(remaining_days, 7);

    status.unsuspend();
    assert_eq!(status.status_type().as_str(), "accepted");
    assert_eq!(status.reason(), None);
    assert_eq!(status.suspended_until(), None);
}

#[test]
fn status_test_unsuspend_if_time_passed() {
    let now = NOW;
    let timestamp_1_hours_ago = now - MICROS_PER_HOUR;

    // one hour of suspension, begun one hour ago: it ends right now
    let mut status = Status::SuspendedTemporarily {
        reason: "test".to_string(),
        until: timestamp_1_hours_ago + MICROS_PER_HOUR,
    };
    status.unsuspend_if_time_passed(now);
    assert_eq!(status.status_type().as_str(), "accepted");
}

#[test]
fn test_7_days_suspension() {
    let status = Status::suspend("test", Some((7, NOW)));

    let remaining_time = status.suspension_time_remaining(NOW);
    assert!(remaining_time.unwrap() / MICROS_PER_DAY >= 6);
}

#[test]
fn test_indefinitely_suspended() {
    let status = Status::suspend("test", None);
    assert_eq!(
        status,
        Status::SuspendedIndefinitely { reason: "test".to_string() }
    );
}

#[test]
fn test_unsuspend() {
    let mut status = Status::suspend("test", None);
    status.unsuspend();
    assert_eq!(status, Status::Accepted);
}

#[test]
fn test_unsuspend_if_time_passed() {
    let now = NOW;
    let timestamp_1_hours_ago = now - MICROS_PER_HOUR;
    let mut status = Status::SuspendedTemporarily {
        reason: "test".to_string(),
        until: timestamp_1_hours_ago,
    };
    status.unsuspend_if_time_passed(now);
    assert_eq!(status, Status::Accepted);
}

#[test]
fn suspension_end_is_exact() {
    let status = Status::suspend("late fees", Some((7, NOW)));
    assert_eq!(status.suspended_until(), Some(NOW + 7 * MICROS_PER_DAY));
    assert_eq!(
        status.suspension_time_remaining(NOW + MICROS_PER_DAY),
        Some(6 * MICROS_PER_DAY)
    );
}

#[test]
fn suspension_grace_window_is_one_hour() {
    // more than an hour left: stays suspended
    let mut status = Status::SuspendedTemporarily {
        reason: "test".to_string(),
        until: NOW + MICROS_PER_HOUR + 1,
    };
    assert!(!status.unsuspend_if_time_passed(NOW));
    assert_eq!(status.status_type().as_str(), "suspended temporarily");

    // strictly less than an hour left: lifted early
    let mut status = Status::SuspendedTemporarily {
        reason: "test".to_string(),
        until: NOW + MICROS_PER_HOUR - 1,
    };
    assert!(status.unsuspend_if_time_passed(NOW));
    assert_eq!(status, Status::Accepted);
}

#[test]
fn non_temporary_statuses_never_expire() {
    let mut status = Status::Pending;
    assert!(!status.unsuspend_if_time_passed(NOW));
    assert_eq!(status, Status::Pending);

    let mut status = Status::SuspendedIndefinitely { reason: "test".to_string() };
    assert!(!status.unsuspend_if_time_passed(NOW));
    assert_eq!(
        status,
        Status::SuspendedIndefinitely { reason: "test".to_string() }
    );
}
