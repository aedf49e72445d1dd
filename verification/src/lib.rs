//! Abuse-report pipeline: inbound messages are fingerprinted, classified,
//! turned into tickets linked to their source messages, and projected into a
//! search index.
//!
//! The relational state lives in [`store::Store`], the search projection in
//! [`models::es::SearchIndex`]. Every operation is a function on those values,
//! so that a caller who persists them elsewhere reads first, calls the
//! library, and writes back what changed.

pub mod auth;
pub mod clock;
pub mod customer;
pub mod ident;
pub mod indicator;
pub mod json;
pub mod llm;
pub mod mail;
pub mod middleware;
pub mod models;
pub mod routes;
pub mod store;
pub mod text;
