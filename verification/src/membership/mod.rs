//! Group membership over a shared registry document.
pub mod error;
pub mod registry;
pub mod runtime;
pub mod store;
