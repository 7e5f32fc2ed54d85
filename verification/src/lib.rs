//! Verified core of a TLS/CORS/authentication proxy in front of a musikcubed server.
pub mod api;
pub mod auth;
pub mod clock;
pub mod codec;
pub mod error;
pub mod music;
pub mod query;
pub mod relay;
pub mod session;
pub mod state;
pub mod stores;
pub mod text;
pub mod token;
