//! The proxy that producers publish through.
pub mod backend;
pub mod discovery;
pub mod gateway;
pub mod http;
pub mod ingress;
pub mod kodo;
pub mod limits;
pub mod metrics;
pub mod stats;
pub mod tcp;
pub mod validation;
