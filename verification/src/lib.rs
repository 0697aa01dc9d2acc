//! Core logic of a slug/URL shortener service: a record store with
//! create/overwrite semantics and a recency-ordered listing, and an
//! access/refresh token subsystem with expiry checking.
pub mod auth;
pub(crate) mod clock;
pub mod errors;
pub mod handlers;
pub mod laws;
pub mod listing;
pub mod record;
