//! Offline-first issue tracking: the local cache, the write queue, the
//! rate-limit governor and the reconciliation decisions, with their contracts.

pub mod cache;
pub mod credentials;
pub mod daemon;
pub mod display;
pub mod forge;
pub mod github;
pub mod governor;
pub mod json;
pub mod linear;
pub mod oauth;
pub mod queue;
pub mod repo;
pub mod rows;
pub mod service;
pub mod text;
