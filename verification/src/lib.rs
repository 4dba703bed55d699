//! KeyFlow: a non-paste password input assistant.
//!
//! A global hotkey makes KeyFlow click into the field under the mouse, fetch
//! a password and type it (or paste it).
pub mod cli;
pub mod config;
pub mod crypto;
pub mod daemon;
pub mod error;
pub mod hotkey;
pub mod input;
pub mod provider;
pub mod service;
pub mod text;
