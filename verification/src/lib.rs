//! Backend logic of a file-browsing service: a client-supplied relative
//! path is resolved securely against a configured root directory, the
//! resolved directory's contents are assembled into a stable, escaped,
//! categorized listing, and new subdirectories can be created under the
//! same containment guarantee. Every response is one well-formed encoded
//! message; no request-level failure escapes as a fault.
//!
//! The filesystem itself (canonicalization, directory reads, directory
//! creation), the byte-size formatter and the entry classifier live with
//! the embedding program, which hands their outcomes in as plain values.

pub mod escape;
pub mod json;
pub mod listing;
pub mod newfolder;
pub mod paths;
pub mod respond;
