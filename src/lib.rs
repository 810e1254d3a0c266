//! Token-based authorization core for the blog API: bearer-token checks,
//! the group to scope mapping, access decisions for the gateway, and the
//! scope override applied when tokens are minted.

pub mod strset;
pub mod bindings;
pub mod mapping;
pub mod scopes;
pub mod token;
pub mod decision;
pub mod keys;
pub mod models;
pub mod records;
pub mod cache;
pub mod handlers;
