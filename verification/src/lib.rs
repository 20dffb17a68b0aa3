//! A recurring-job scheduler with cron-style recurrence rules, together with
//! the small data types that its jobs and its host application work with.

use vstd::prelude::*;

pub mod datetime;
pub mod log;
pub mod request;
pub mod trace;
pub mod json;
pub mod query;
pub mod schedule;
pub mod strings;
pub mod uuid;
pub mod validation;
pub mod validator;

verus! {

/// Milliseconds in the idle poll interval a scheduler falls back to.
pub const IDLE_POLL_MILLIS: u64 = 500;

} // verus!
