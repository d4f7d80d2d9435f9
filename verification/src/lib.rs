//! Party-listing ingestion, normalization, filtering, and reconciliation engine.
//!
//! Raw markup scraped from an external listings page is parsed into a typed
//! listing model, near-duplicate listings are collapsed, and a set of
//! user-created subscriptions is kept synchronized with a filtered view of the
//! current listing snapshot.

pub mod dedup;
pub mod extract;
pub mod filter;
pub mod jobs;
pub mod listing;
pub mod parse;
pub mod reconcile;
pub mod render;
pub mod sanitize;
pub mod text;
pub mod timeparse;
