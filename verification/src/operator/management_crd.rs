//! The topic and channel resources that the console manages.
use vstd::prelude::*;

verus! {

/// Where a managed resource is in its life.
#[derive(Clone, Copy, Debug, PartialEq, Eq, Structural)]
pub enum ManagedResourcePhase {
    Preparing,
    Active,
    Applying,
    Failed,
    Tombstoned,
}

/// What is done to a managed resource.
#[derive(Clone, Copy, Debug, PartialEq, Eq, Structural)]
pub enum ManagedResourceAction {
    Create,
    Pause,
    Unpause,
    Empty,
    Delete,
}

/// An action in progress.
#[derive(Clone, Debug, PartialEq, Eq)]
pub struct ManagedResourceOperation {
    pub id: String,
    pub action: ManagedResourceAction,
    pub completed_owners: Vec<String>,
    pub attempt: u32,
    pub created_at_ms: i64,
    pub updated_at_ms: i64,
}

/// A managed topic.
#[derive(Clone, Debug)]
pub struct RustQueueTopicSpec {
    pub queue: String,
    pub topic: String,
    pub owners: Vec<String>,
    pub phase: ManagedResourcePhase,
    pub revision: u64,
    pub paused: bool,
    pub tombstone_until_ms: Option<i64>,
    pub last_error: Option<String>,
    pub operation: Option<ManagedResourceOperation>,
}

/// A managed channel.
#[derive(Clone, Debug)]
pub struct RustQueueChannelSpec {
    pub queue: String,
    pub topic: String,
    pub channel: String,
    pub owners: Vec<String>,
    pub phase: ManagedResourcePhase,
    pub revision: u64,
    pub paused: bool,
    pub ephemeral: bool,
    pub tombstone_until_ms: Option<i64>,
    pub last_error: Option<String>,
    pub operation: Option<ManagedResourceOperation>,
}

} // verus!
