//! Provisioning of peers for a WireGuard tunnel: address allocation from a
//! fixed pool, key generation through the `wg` tool, registration with the
//! live interface and rendering of the client configuration.
//!
//! The library decides and computes; running processes, reading the peer
//! store and writing files is left to the caller, which hands the results
//! back as plain values.
//!
//! - [`workflow`]: the provisioning of a peer, stage by stage, and its
//!   removal;
//! - [`keys`]: key generation over the two runs of the key tool;
//! - [`pool`]: allocation of the lowest free address;
//! - [`interface`]: the calls of `wg` and the outcome of a run;
//! - [`config`]: the settings and the rendered client configuration;
//! - [`ini`]: what is relied on from `configparser`, unproved;
//! - [`peer`], [`address`], [`error`], [`text`]: the values these work on.

pub mod address;
pub mod config;
pub mod error;
pub mod ini;
pub mod interface;
pub mod keys;
pub mod peer;
pub mod pool;
pub mod text;
pub mod workflow;
