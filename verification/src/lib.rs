//! mailctl: the verified core of an agent-oriented mail client for Gmail and
//! Outlook/Hotmail.
use vstd::prelude::*;

pub mod error;
pub mod text;
pub mod provider;
pub mod config;
pub mod model;
pub mod query;
pub mod mailbox;
pub mod envelope;
pub mod utf7;
pub mod encoding;
pub mod oauth;
pub mod cli;
pub mod commands;
pub mod sync;
pub mod audit;
pub mod retry;
pub mod keychain;
pub mod auth;
pub mod mime;
pub mod compose;
pub mod smtp;
