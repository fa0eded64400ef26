//! Forward-authorization library: decides ALLOW/DENY for reverse-proxied
//! requests from a bearer token, a cached key set and a static
//! path/method/scope policy.

pub mod cache;
pub mod config;
pub mod engine;
pub mod handler;
pub mod keys;
pub mod strutil;
