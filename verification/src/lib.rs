//! A multi-tenant task list: credentials and sessions, an append-only log of
//! task events with its projection to current state, and a per-account cache
//! of the grouped view.

pub mod auth;
pub mod error;
pub mod markdown;
pub mod persistence;
pub mod router;
pub mod templates;
pub mod time;
pub mod uid;
