//! Verified core of a user-pool CSV exporter.
//!
//! The library renders user records as CSV rows, models the paginated
//! listing loop as a state machine that an unverified driver can run one
//! page at a time, and states the error kinds an export run can end in.

pub mod csv;
pub mod export;
pub mod record;
