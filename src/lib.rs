//! Passive combat meter core: packet decoding, flow identification, stream
//! framing, envelope and payload decoding, and the aggregate statistics store.
//!
//! [`pipeline::CoreContext`] ties the stages together; each stage states its
//! behaviour over spec functions, and [`laws`] proves properties across them.

pub mod wire;
pub mod ipv4;
pub mod flow;
pub mod stream;
pub mod envelope;
pub mod proto;
pub mod tables;
pub mod keyed;
pub mod model;
pub mod enemy;
pub mod store;
pub mod messages;
pub mod parser;
pub mod fragment;
pub mod pipeline;
pub mod laws;
pub mod error;
pub mod decryption;
pub mod opcodes;
pub mod structures;
pub mod skill;
pub mod config;
