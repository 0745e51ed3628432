//! Data-synchronization and submission engine for a terminal client of a
//! learning-management-system REST API.
//!
//! The library holds the verified core: pagination-link parsing, HTTP status
//! interpretation, the calendar merge, the sync-pass and submission state
//! machines, and the cache snapshot. All network and file I/O lives outside,
//! in an unverified shell that drives these state machines.

use vstd::prelude::*;

pub mod cachefmt;
pub mod error;
pub mod grades;
pub mod merge;
pub mod models;
pub mod pager;
pub mod nav;
pub mod pagination;
pub mod strutil;
pub mod submit;
pub mod sync;
pub mod textutil;
pub mod wizard;

verus! {

/// Number of seconds in the rolling calendar window (30 days).
pub const CALENDAR_WINDOW_SECS: i64 = 2592000;

} // verus!
