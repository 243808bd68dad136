//! Discovery: which brokers there are, and which topics they hold.
pub mod directory;
pub mod index;
pub mod kube_source;
pub mod metrics;
pub mod model;
pub mod server;
