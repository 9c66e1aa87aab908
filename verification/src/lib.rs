//! Versioned state serialization: a ledger of schema versions, version-aware
//! encoding of values, and a container of named sections.

pub mod a;
pub mod a2;
pub mod aggregate;
pub mod backend;
pub mod bindings;
pub mod controller;
pub mod descriptors;
pub mod encryption;
pub mod error;
pub mod evolution;
pub mod fam;
pub mod fields;
pub mod layout;
pub mod message;
pub mod model;
pub mod primitives;
pub mod queue;
pub mod sequences;
pub mod snapshot;
pub mod stream;
pub mod text;
pub mod variants;
pub mod version_map;
pub mod versionize;
