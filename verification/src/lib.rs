//! StrIEM's verified core: configuration and host reconciliation, detection
//! findings, Vector configuration, storage routing, query bounding, sources,
//! rule listings and the API server's settings.

pub mod assoc;
pub mod config;
pub mod detection;
pub mod event;
pub mod features;
pub mod json;
pub mod net;
pub mod pipeline;
pub mod query;
pub mod rules;
pub mod server;
pub mod sources;
pub mod storage;
pub mod text;
pub mod toml_doc;
pub mod url;
pub mod vector;
