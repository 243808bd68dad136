//! The decisions of the controllers.
pub mod auth;
pub mod drain;
pub mod health;
pub mod kodo;
pub mod kodo_cutover;
pub mod leadership;
pub mod nodes;
pub mod operations;
pub mod plan;
pub mod preflight;
pub mod reconcile;
pub mod reconcile_state;
pub mod rollout;
pub mod security;
pub mod status;
pub mod storage;
pub mod validation;
