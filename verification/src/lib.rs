//! A gateway library that presents one Ollama-compatible chat API over
//! heterogeneous upstream LLM providers.
//!
//! The library holds the protocol and routing logic of the gateway: the two
//! wire-format decoders that turn arbitrarily fragmented upstream byte
//! streams into canonical chat chunks, the aggregation of a chunk stream
//! into one answer, the namespacing of model identifiers across providers,
//! and the construction of providers from configuration. The HTTP server
//! and the outbound HTTP client live outside the library and exchange plain
//! values with it.

pub mod aggregate;
pub mod config;
pub mod decode;
pub mod fake;
pub mod lines;
pub mod models;
pub mod options;
pub mod providers;
pub mod registry;
pub mod wire;
