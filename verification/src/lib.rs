//! Package-manifest resolution engine.
//!
//! Given the resolution-relevant fields of a `package.json` manifest and a
//! requested subpath, this crate decides which on-disk target a module
//! specifier maps to: the `exports` and `imports` fields with their subpath
//! patterns, conditional objects and fallback arrays, and the legacy
//! `browser` alias field.  The crate consumes an already-deserialized JSON
//! value tree and performs no I/O of its own.

pub mod browser;
pub mod error;
pub mod json;
pub mod keys;
pub mod loader;
pub mod manifest;
pub mod matcher;
pub mod paths;
pub mod strings;
pub mod target;
pub mod tree;

pub use browser::BrowserField;
pub use error::ResolveError;
pub use json::JsonValue;
pub use keys::ExportsKey;
pub use manifest::PackageJson;
pub use matcher::resolve;
pub use matcher::resolve_imports;
pub use tree::ExportsField;
pub use tree::MatchObject;
