//! Visitor counter engine: sharded counter tables, key and identity
//! derivation, persistence rows and the administrative store operations.

pub mod tables;
pub mod admin;
pub mod auth;
pub mod config;
pub mod count;
pub mod digest;
pub mod laws;
pub mod persist;
pub mod probe;
pub mod request;
pub mod sitemap;
pub mod store;
pub mod text;
