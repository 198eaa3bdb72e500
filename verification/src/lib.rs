//! Verified core of the simu file-sharing backend: the decisions, formats and
//! checks that the HTTP handlers rely on, stated over plain values.

pub mod admin;
pub mod oauth;
pub mod orgs;
pub mod server;
pub mod audit;
pub mod chat;
pub mod cli;
pub mod config;
pub mod auth;
pub mod crypto;
pub mod error;
pub mod events;
pub mod files;
pub mod formats;
pub mod housekeeping;
pub mod ids;
pub mod mail;
pub mod mfa;
pub mod text;
pub mod validation;
