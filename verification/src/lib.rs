//! Session and settings data of a streaming server: how a stored session is
//! read back, how the settings cache of an older version is carried over to
//! the current settings schema, and how the settings are read off the cache.

pub mod conformance;
pub mod extrapolation;
pub mod extrapolation_laws;
pub mod json;
pub mod json_laws;
pub mod manager;
pub mod manager_laws;
pub mod parse;
pub mod parts;
pub mod schema;
pub mod session;
pub mod session_laws;
pub mod settings;
pub mod settings_laws;
