//! Finding little-known games on the Steam storefront: random-word searches, a filter on
//! price, review count and platforms, and the loop that gathers titles until a quota is met.
//!
//! The crate decides and computes; sending requests, sleeping and talking to the user are
//! left to the caller.

pub mod collector;
pub mod filter;
pub mod steam;
pub mod terms;
pub mod text;
