//! Utilities around the language: the version text.

pub mod version;

pub use version::get_version;
