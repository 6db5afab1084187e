//! Core of an authenticated gateway that forwards chat-completion requests
//! to one of several upstream providers: ban bookkeeping, least-usage
//! routing, response caching and stream shaping, with machine-checked
//! contracts.

pub mod admin;
pub mod auth;
pub mod ban;
pub mod cache;
pub mod config;
pub mod error;
pub mod handler;
pub mod json;
pub mod models;
pub mod router;
pub mod service;
pub mod state;
pub mod stream;
pub mod text;
pub mod trusted;
