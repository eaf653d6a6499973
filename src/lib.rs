//! Document lifecycle and storage logic of a collaborative-document server.
pub mod names;
pub mod keys;
pub mod snapshot;
pub mod sync_kv;
pub mod persistence;
pub mod gc;
pub mod api_types;
pub mod documents;
pub mod protocol;
pub mod telemetry;
pub mod urls;
pub mod store;
