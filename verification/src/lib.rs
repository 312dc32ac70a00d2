//! A policy engine for running commands and editing files as another user:
//! the rules and how a request is matched against them, the loading of the
//! policy, the authentication token, the environment of the child, and the
//! workflow of an edit. Every decision is made here; opening files, asking
//! for passwords and changing identity is left to the caller.
pub mod audit;
pub mod auth;
pub mod cli;
pub mod clock;
pub mod config;
pub mod edit;
pub mod environ;
pub mod ini;
pub mod listing;
pub mod loader;
pub mod matcher;
pub mod number;
pub mod path;
pub mod pattern;
pub mod privs;
pub mod report;
pub mod request;
pub mod rule;
pub mod text;
pub mod token;
pub mod util;
pub mod workflow;
