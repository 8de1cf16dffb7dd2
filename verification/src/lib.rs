//! Core of an HTTP client: resolution of client and per-request options into
//! immutable descriptors, multipart body assembly, and a one-shot consumption
//! protocol for response bodies (buffered or streamed with backpressure).
//!
//! The transport itself (connections, TLS, wire framing) is an external
//! collaborator reached through the `transport` module's trait; this crate
//! holds the configuration, assembly and consumption logic.

pub mod ascii;
pub mod cert;
pub mod config;
pub mod errors;
pub mod headers;
pub mod multipart;
pub mod request;
pub mod response;
pub mod transport;

pub use cert::{Cert, CertFormat};
pub use config::{ClientConfig, ClientOptions};
pub use errors::{AssemblyError, BuildError, ConfigError, ConsumeError, TransportError};
pub use headers::HeaderTable;
pub use multipart::{MultipartForm, MultipartSpec};
pub use request::{RequestDescriptor, RequestOptions};
pub use response::ResponseHandle;
