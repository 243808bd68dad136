//! The operator: desired state of a cluster and the decisions that lead to it.
pub mod broker_config;
pub mod cluster;
pub mod controller;
pub mod crd;
pub mod kube;
pub mod layout;
pub mod management_crd;
pub mod pki;
pub mod placement;
pub mod resources;
pub mod status;
pub mod upgrade;
