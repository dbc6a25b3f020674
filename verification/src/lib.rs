//! Resolves an identifier to a semantic version through a small version
//! manifest that several mirrors host.
//!
//! The library holds the decisions: how a manifest is decoded, how an
//! identifier is looked up in it, and how a run over the mirrors falls back
//! from one to the next. Fetching a mirror's text is the caller's part.

pub mod error;
pub mod manifest;
pub mod outside;
pub mod resolver;
pub mod scan;

pub use error::{Error, Failure, Malformed};
pub use manifest::Manifest;
pub use scan::{is_shallow, MAX_DEPTH};
pub use resolver::{get_version, get_versions, Fetched, Resolver, Step};
pub use semver::Version;
