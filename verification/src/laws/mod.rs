//! Laws: what the operations are for, stated over their inputs and results.
pub mod addresses;
pub mod assignment;
pub mod auth;
pub mod bootstrap;
pub mod checkpoint_kv;
pub mod checkpoints;
pub mod client;
pub mod collections;
pub mod config;
pub mod coordinator;
pub mod errors;
pub mod events;
pub mod generation;
pub mod intervals;
pub mod membership;
pub mod membership_kv;
pub mod mitigation;
pub mod observability;
pub mod services;
pub mod streams;
pub mod texts;
pub mod topology;
pub mod transport;
