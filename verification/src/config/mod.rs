//! Application configuration: providers, upstream tier routing, model pricing,
//! validation and self-healing migration.

pub mod error;
pub mod model;
pub mod pricing;
pub mod provider;
pub mod routing;
pub mod upstream;
pub mod validation;
