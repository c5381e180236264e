//! Small helpers for tooling around Rust code: syntactic comparison and containment of
//! token trees, dependency declarations for manifests, path prefixing, and the decisions
//! taken while formatting a directory or looking for a manifest.

pub mod tokens;
pub mod token_laws;
pub mod manifest;
pub mod manifest_edit;
pub mod paths;
pub mod fmt;
