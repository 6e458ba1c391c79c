//! Client-side logic for a source-control hosting server's REST API:
//! cursor pagination, declarative access reconciliation, and filtered
//! enumeration of project/repository/file locations.
//!
//! The library computes paths, plans and decisions as plain values; the
//! HTTP transport that carries them lives outside and hands back plain
//! values (pages, statuses, branch results) for the library to combine.

pub mod auth;
pub mod client;
pub mod error;
pub mod file;
pub mod group;
pub mod merging;
pub mod project;
pub mod repository;
pub mod user;

pub use error::ApiError;
