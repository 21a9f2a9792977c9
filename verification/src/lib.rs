//! A hierarchical configuration store over TOML documents, addressed by dotted keys.
//!
//! [`TomlConfig`] holds one document as a tree and reads, stores, creates and removes
//! entries by keys such as `"server.database.host"`. The [`tree`] module says what each
//! operation does to the tree; [`laws`] holds what follows for every tree, key and value.

pub mod codec;
pub mod error;
pub mod laws;
pub mod path;
pub mod toml_config;
pub mod tree;

pub use error::ConfigError;
pub use toml_config::TomlConfig;
