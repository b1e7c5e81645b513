//! Core of a sidecar that translates serverless invocation events into HTTP
//! requests against a local application and translates the responses back.
//!
//! The modules here hold the decision logic of the sidecar: configuration
//! parsing, readiness decisions, the request/response translation pipeline,
//! invocation-mode resolution, and the lifecycle-registration protocol.
//! Network transport and process plumbing live outside this crate.

pub mod adapter;
pub mod config;
pub mod detect;
pub mod headers;
pub mod readiness;
pub mod registrar;
pub mod text;

pub use config::{parse_status_codes, AdapterOptions, LambdaInvokeMode, Protocol};
