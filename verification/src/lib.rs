//! Scheduling of tabletop-game sessions: campaigns, sessions with a status
//! lifecycle, listings of the sessions that are still to come, and a paged
//! viewer that one user steers with `next` and `previous` until it has been
//! idle for too long.
//!
//! The library decides and keeps its data in memory; it does no input or
//! output. Whoever uses it reads campaigns and sessions into a
//! [`campaign::CampaignRegistry`] and a [`store::SessionStore`], calls
//! [`scheduler`], writes back what was decided, and runs a
//! [`pagination::PaginationController`] by handing it each event with the
//! time at which it came.
//!
//! Every function carries a contract that Verus proves. The calendar, the
//! local time zone and the wall clock come from `chrono`, through the four
//! functions of [`clock`] whose contracts are believed.

pub mod campaign;
pub mod clock;
pub mod config;
pub mod error;
pub mod listing;
pub mod moderation;
pub mod page;
pub mod pagination;
pub mod scheduler;
pub mod session;
pub mod stamp;
pub mod status;
pub mod store;
pub mod text;
