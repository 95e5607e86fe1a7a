//! Lantern: scheduled daily check-ins for Hoyoverse and nCore accounts,
//! nCore hit-and-run seeding upkeep, ntfy failure alerts, and the rules of the
//! account and user API that drives them.
//!
//! The modules hold the decisions: when a task runs next (`scheduler`, on the
//! civil calendar of `calendar`), how a check-in proceeds (`hoyoverse`,
//! `ncore`), which torrents must be kept (`torrent`), how users and sessions
//! are admitted (`auth`, `api`), and the shared data (`models`). Sending,
//! storing and serving live outside the library.

use vstd::prelude::*;

pub mod api;
pub mod auth;
pub mod calendar;
pub mod hoyoverse;
pub mod models;
pub mod ncore;
pub mod notifier;
pub mod scheduler;
pub mod text;
pub mod timestamp;
pub mod torrent;

verus! {

} // verus!
