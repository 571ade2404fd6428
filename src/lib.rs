//! A backend data service's core: a store of `(uuid, data)` entries in named
//! tables, and a scheduler that refreshes cached snapshots of external sources
//! on one shared tick counter, keeping the last good value when a fetch fails.
use vstd::prelude::*;

pub mod auth;
pub mod config;
pub mod controller;
pub mod db;
pub mod fetch;
pub mod response;
pub mod scheduler;
pub mod text;

verus! {

} // verus!
