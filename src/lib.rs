//! Credential and invitation-token core of a self-hosted multi-user service
//! gate: invite tokens, password and second-factor checks, session deadlines
//! and the account operations built on them.

pub mod error;
pub mod config;
pub mod policy;
pub mod store;
pub mod token;
pub mod secret;
pub mod session;
pub mod account;
