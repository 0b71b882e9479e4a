//! Verified core of a video ingestion server: upload checks and file layout,
//! the registry of chunked and resumable transfers, range requests, and the
//! text and path handling they rest on.
pub mod text;
pub mod common;
pub mod paths;
pub mod http;
pub mod stream;
pub mod upload_types;
pub mod registry;
pub mod upload;
pub mod multipart;
pub mod reassembly;
pub mod laws;
pub mod flow_laws;
