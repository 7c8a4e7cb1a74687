//! The dashboard server: authentication, settings changes and cost reports.

pub mod auth;
pub mod costs;
pub mod export;
pub mod hooks;
pub mod settings;
pub mod ws;
