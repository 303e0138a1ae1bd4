//! A versioned configuration store: named JSON documents, each governed by a
//! JSON Schema, where every update produces a new immutable version and
//! optimistic concurrency protects against lost updates.

pub mod api;
mod assoc;
pub mod client;
pub mod config;
pub mod document;
pub mod engine;
pub mod error;
pub mod json;
pub mod key;
pub mod laws;
pub mod memory;
pub mod metadata;
pub mod resolution;
pub mod validation;
pub mod version;

pub use config::StorageConfig;
pub use document::{ConfigData, VersionInfo};
pub use error::StorageError;
pub use key::ConfigKey;
pub use metadata::{Metadata, VersionMetadata};
