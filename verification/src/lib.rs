pub mod codec;
pub mod config;
pub mod connectors;
pub mod filter;
pub mod headers;
pub mod json;
pub mod laws;
pub mod media;
pub mod prepare;
pub mod preprocessing;
pub mod sse;
pub mod stage;
pub mod state;
pub mod stream_events;
pub mod text;
pub mod transform;
pub mod translate;
pub mod yaml;
