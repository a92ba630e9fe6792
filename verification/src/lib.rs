//! A verified client core for Prometheus-compatible monitoring APIs:
//! authentication selection, request building, response-envelope
//! validation, and output rendering.

pub mod auth;
pub mod endpoint;
pub mod envelope;
pub mod error;
pub mod json;
pub mod output;
pub mod render;
pub mod request;
pub mod text;
