//! Telos: an intent-based aggregator that settles payments and hedges them.
//!
//! A payment intent is observed on one chain, priced from the trades of another, simulated in an
//! EVM, and, where the simulation and the price allow it, hedged with an order at the venue.
//!
//! - [`listener`]: what happens to the logs that are received, and the stages of an intent;
//! - [`settler`]: the price book, routes, simulation and the decision whether to hedge;
//! - [`submitter`]: broadcast and confirmation of a hedge;
//! - [`store`]: the event log of the stages;
//! - [`precompile`]: the intent digest and the precompile set that carries it;
//! - [`calls`]: calls on a fresh EVM that carries the intent digest;
//! - [`node`]: the JSON-RPC surface;
//! - [`config`]: the configuration of the listener;
//! - [`abi`], [`evm`], [`keccak`], [`primitives`], [`text`], [`types`]: what these share.
pub mod abi;
pub mod calls;
pub mod config;
pub mod evm;
pub mod keccak;
pub mod listener;
pub mod node;
pub mod precompile;
pub mod primitives;
pub mod settler;
pub mod store;
pub mod submitter;
pub mod text;
pub mod types;
