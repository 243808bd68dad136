//! The NSQ V2 wire protocol: names, commands, frames and batches.
pub mod command;
pub mod frame;
pub mod identify;
pub mod identity;
pub mod mpub;
pub mod name;

use vstd::prelude::*;

verus! {

/// Bytes of a message ID on the wire.
pub const MESSAGE_ID_LEN: usize = 16;

/// The largest single message.
pub const MAX_MESSAGE_BYTES: usize = 104_857_600;

/// The largest batch of messages.
pub const MAX_BATCH_BYTES: usize = 134_217_728;

/// What a client sends first.
pub const MAGIC_V2: [u8; 4] = [32, 32, 86, 50];

/// The body of a heartbeat response: `_heartbeat_`.
pub const HEARTBEAT: [u8; 11] = [95, 104, 101, 97, 114, 116, 98, 101, 97, 116, 95];

/// The body of a success response: `OK`.
pub const OK: [u8; 2] = [79, 75];

/// The body of the response to a close: `CLOSE_WAIT`.
pub const CLOSE_WAIT: [u8; 10] = [67, 76, 79, 83, 69, 95, 87, 65, 73, 84];

} // verus!
