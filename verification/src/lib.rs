//! A market-data routing and dispatch engine: registers per-venue data
//! clients, translates subscription commands into client actions, validates
//! inbound market events, updates an in-memory cache and managed order
//! books, and fans events out on a topic-addressed message bus.
//!
//! Synthetic-instrument feeds are not modelled here: recomputing a
//! synthetic from its component ticks is floating-point formula work that
//! belongs to the aggregation components outside this crate, and no
//! operation of the engine reads or writes such a registry.

pub mod barform;
pub mod cache;
pub mod client;
pub mod data;
pub mod engine;
pub mod identifiers;
pub mod laws;
pub mod messages;
pub mod msgbus;
pub mod routing;
