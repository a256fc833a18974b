//! Verified core of a Couchbase Database Change Protocol client.
use vstd::prelude::*;

pub mod adapters;
pub mod address;
pub mod assignment;
pub mod auth;
pub mod bootstrap;
pub mod bucket_config;
pub mod checkpoint;
pub mod checkpoint_couchbase;
pub mod checkpoint_runtime;
pub mod checkpoint_store;
pub mod client;
pub mod collections;
pub mod config;
pub mod crypto;
pub mod error;
pub mod event;
pub mod generation;
pub mod handshake;
pub mod interval;
pub mod laws;
pub mod lists;
pub mod maps;
pub mod membership;
pub mod naming;
pub mod observability;
pub mod protocol;
pub mod rollback_mitigation;
pub mod sdk;
pub mod stream;
pub mod text;
pub mod tls;
pub mod topology;
pub mod transport;

verus! {

} // verus!
