//! Core of a group-membership invitation service: invitations are created,
//! updated, listed through trust-tier scoped views, and accepted into
//! memberships, with an audit log entry for every mutation.

pub mod invitation;
pub mod laws;
pub mod listing;
pub mod store;
pub mod time;
pub mod types;
pub mod views;
