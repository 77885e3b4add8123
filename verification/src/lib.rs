//! A small HTTP file server library: an immutable in-memory asset store,
//! a static resolver that maps request paths to stored assets, a fixed
//! greeting endpoint, and the dispatch rule that ties them together.
//!
//! The surrounding binary does the listening and socket work; everything
//! that decides what a request is answered with lives here.

pub mod api;
pub mod resolver;
pub mod router;
pub mod store;
