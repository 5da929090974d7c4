//! Runtime configuration of the service, as plain values; reading the
//! environment happens outside the library.

use vstd::prelude::*;

verus! {

/// The settings the service runs with.
#[derive(Debug, Clone)]
pub struct AppConfig {
    pub app_env: String,
    pub log_level: String,
    pub metastore_dsn: String,
    pub memgraph_addr: String,
    pub memgraph_database: String,
    pub qdrant_addr: String,
    pub model_provider_base_url: String,
    pub embedding_model_alias: String,
    pub use_mock_embedder: bool,
}

impl AppConfig {
    /// Whether the transport should expose service reflection: only in
    /// the local environment.
    pub fn enable_reflection(&self) -> (r: bool)
        ensures
            r == (self.app_env@ == "local"@),
    {
        crate::text::str_eq(self.app_env.as_str(), "local")
    }
}

} // verus!
