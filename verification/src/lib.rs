//! A caching reverse proxy engine for an npm-compatible package registry.

pub mod api;
pub mod config;
pub mod error;
pub mod identifier;
pub mod inner;
pub mod json;
pub mod record;
pub mod storage;
pub mod text;
