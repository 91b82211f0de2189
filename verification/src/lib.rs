//! The rules of a sharded validator and of the tools around it, each
//! with its contract.
//!
//! - Voting on blocks: [`committee`], [`manager`], [`worker`], [`query`],
//!   [`execution`], [`crosschain`], [`blobs`], [`notifier`], and the
//!   client's side of it in [`client`].
//! - The benchmark: [`benchmark`], [`pacing`], [`timings`], and the health
//!   check of the validators in [`endpoints`], [`scrape`], [`histogram`],
//!   [`quantile`] and [`health`].
//! - The server: [`server`] and [`shards`].
//! - The in-process test network: [`faults`] and [`harness`].
//! - Shared: [`chain`], [`error`] and [`text`].

pub mod benchmark;
pub mod blobs;
pub mod chain;
pub mod client;
pub mod committee;
pub mod crosschain;
pub mod endpoints;
pub mod error;
pub mod execution;
pub mod faults;
pub mod harness;
pub mod health;
pub mod histogram;
pub mod manager;
pub mod notifier;
pub mod pacing;
pub mod quantile;
pub mod query;
pub mod scrape;
pub mod server;
pub mod shards;
pub mod text;
pub mod timings;
pub mod worker;
