//! Core of a content-addressed, agent-centric application runtime: the
//! application DNA model, entries and their addresses, the per-agent chain,
//! the content and metadata stores, entry lifecycle (CRUD) status, the
//! validation pipeline's decisions and the network request bookkeeping.
pub mod address;
pub mod codec;
pub mod entry;
pub mod error;
pub mod dna;
pub mod chain;
pub mod storage;
pub mod crud;
pub mod agent;
pub mod validation;
pub mod network;
