//! Credential, session-token and light-record logic of a home-automation backend.
pub mod password;
pub mod token;
pub mod config;
pub mod user;
pub mod guard;
pub mod light;
