//! Catalog inspection for an embedded storage engine.
//!
//! The library walks the engine's catalog table through a cursor state
//! machine, decodes each record from its type-tagged binary document
//! encoding, and resolves logical collection and index names to their
//! physical storage-file identifiers.  Every engine status code passes
//! through a single pure classifier, and every decode failure is a typed
//! error carrying the offending record's key.

pub mod doc;
pub mod wire;
pub mod decode;
pub mod encode;
pub mod roundtrip;
pub mod catalog;
pub mod scan;
pub mod error;
pub mod handles;
pub mod status;
