//! An in-memory post store with HTTP-style handlers.
//!
//! The store owns an ordered collection of posts; the handlers translate
//! list/create/show requests into store operations and encode or decode the
//! JSON wire representation.

pub mod models;
pub mod text;
pub mod ids;
pub mod timefmt;
pub mod database;
pub mod json;
pub mod handlers;
