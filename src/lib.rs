//! Client-side gateway core: error classification, reassembly of streamed
//! completions, transcription failover, and the shaping of requests and
//! telemetry. Network, storage and UI are left to the host.

pub mod audio;
pub mod capture;
pub mod chat;
pub mod classify;
pub mod config;
pub mod http;
pub mod json;
pub mod jsontext;
pub mod model;
pub mod shortcuts;
pub mod stream;
pub mod telemetry;
pub mod text;
