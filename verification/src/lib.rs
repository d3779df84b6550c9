//! Moderated, versioned entities over an append-only, content-addressed
//! record store.
//!
//! Entities (user profiles, organizations) are immutable records; an entity's
//! identity is the id of its first record, and every update appends a new
//! record together with a revision index entry pointing at it.  A moderation
//! status (pending / accepted / rejected / suspended) is attached to each
//! entity and gated by an administrator role, and organizations carry a
//! membership / coordinator graph with structural invariants (at least one
//! coordinator, no orphaned membership links).

pub mod admin;
pub mod entity;
pub mod errors;
pub mod laws;
pub mod moderation;
pub mod orgs;
pub mod profile;
pub mod resolve;
pub mod status;
pub mod store;
pub mod types;
