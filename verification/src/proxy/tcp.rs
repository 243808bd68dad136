//! How much memory a producer's connection may take, and how long it may last.
use crate::protocol::command::Command;
use crate::protocol::mpub::MAX_MPUB_MESSAGES;
use rand::Rng;
use vstd::prelude::*;

verus! {

/// The largest body of a command that publishes nothing, in bytes.
pub const MAX_CONTROL_BODY_BYTES: usize = 1_048_576;

/// How often an IDENTIFY body is held at once.
pub const IDENTIFY_WORKING_SET_COPIES: usize = 3;

/// What an IDENTIFY body takes besides its copies, in bytes.
pub const IDENTIFY_FIXED_WORKING_BYTES: usize = 4096;

/// What a message of a batch takes besides its body, in bytes.
pub const MPUB_MESSAGE_WORKING_BYTES: usize = 128;

/// The number, or the largest one.
pub open spec fn capped(n: int) -> int {
    if n > usize::MAX {
        usize::MAX as int
    } else {
        n
    }
}

/// How much memory a command with a body of so many bytes takes.
pub open spec fn working_set(command: Command, bytes: nat) -> int {
    match command {
        Command::Identify => capped(
            capped(bytes * IDENTIFY_WORKING_SET_COPIES) + IDENTIFY_FIXED_WORKING_BYTES,
        ),
        Command::MultiPublish { .. } => capped(
            bytes + capped(MAX_MPUB_MESSAGES * MPUB_MESSAGE_WORKING_BYTES),
        ),
        _ => bytes as int,
    }
}

/// The product of two numbers, or the largest one.
fn scaled(a: usize, b: usize) -> (r: usize)
    ensures
        r == capped(a * b),
{
    match a.checked_mul(b) {
        Some(n) => n,
        None => usize::MAX,
    }
}

/// How much memory a command with a body of so many bytes takes.
pub fn command_working_set(command: &Command, bytes: usize) -> (r: usize)
    ensures
        r == working_set(*command, bytes as nat),
{
    match command {
        Command::Identify => {
            scaled(bytes, IDENTIFY_WORKING_SET_COPIES).saturating_add(IDENTIFY_FIXED_WORKING_BYTES)
        },
        Command::MultiPublish { .. } => {
            bytes.saturating_add(scaled(MAX_MPUB_MESSAGES, MPUB_MESSAGE_WORKING_BYTES))
        },
        _ => bytes,
    }
}

/// The larger of two numbers.
pub open spec fn larger(a: int, b: int) -> int {
    if a > b {
        a
    } else {
        b
    }
}

/// The most memory that one command takes.
pub open spec fn largest_working_set(max_message_bytes: nat, max_body_bytes: nat) -> int {
    larger(
        larger(
            capped(MAX_CONTROL_BODY_BYTES * IDENTIFY_WORKING_SET_COPIES
                + IDENTIFY_FIXED_WORKING_BYTES),
            capped(max_body_bytes + MAX_MPUB_MESSAGES * MPUB_MESSAGE_WORKING_BYTES),
        ),
        max_message_bytes as int,
    )
}

/// The most memory that one command takes.
pub fn maximum_gateway_working_set(max_message_bytes: usize, max_body_bytes: usize) -> (r: usize)
    ensures
        r == largest_working_set(max_message_bytes as nat, max_body_bytes as nat),
{
    let identify = command_working_set(&Command::Identify, MAX_CONTROL_BODY_BYTES);
    let batch = command_working_set(
        &Command::MultiPublish { topic: String::new() },
        max_body_bytes,
    );
    let both = if identify > batch {
        identify
    } else {
        batch
    };
    if both > max_message_bytes {
        both
    } else {
        max_message_bytes
    }
}

/// No command within the limits takes more memory than the largest working set.
pub proof fn law_every_command_fits_the_largest_working_set(
    command: Command,
    bytes: nat,
    max_message_bytes: nat,
    max_body_bytes: nat,
)
    requires
        match command {
            Command::Identify | Command::Auth => bytes <= MAX_CONTROL_BODY_BYTES,
            Command::MultiPublish { .. } => bytes <= max_body_bytes,
            _ => bytes <= max_message_bytes,
        },
    ensures
        working_set(command, bytes) <= largest_working_set(max_message_bytes, max_body_bytes),
{
}

/// The shortest and the longest age that a connection may reach, in seconds: a tenth
/// around the configured age, which is given in nanoseconds.
pub open spec fn age_range(base: nat) -> Option<(nat, nat)> {
    if base == 0 {
        None
    } else {
        let whole = base / 1_000_000_000;
        let seconds = if whole < 1 {
            1
        } else if whole > u64::MAX {
            u64::MAX as nat
        } else {
            whole
        };
        let jitter = if seconds < 20 {
            1
        } else {
            seconds / 10
        };
        let lower = if seconds <= jitter + 1 {
            1
        } else {
            (seconds - jitter) as nat
        };
        let upper = if seconds + jitter > u64::MAX {
            u64::MAX as nat
        } else {
            seconds + jitter
        };
        Some((lower, upper))
    }
}

/// The shortest and the longest age that a connection may reach, in seconds.
pub fn connection_age_range(base: u128) -> (r: Option<(u64, u64)>)
    ensures
        match r {
            None => age_range(base as nat) is None,
            Some((lower, upper)) => age_range(base as nat) == Some((lower as nat, upper as nat))
                && 1 <= lower <= upper,
        },
{
    if base == 0 {
        return None;
    }
    let whole: u128 = base / 1_000_000_000;
    let seconds: u64 = if whole < 1 {
        1
    } else if whole > u64::MAX as u128 {
        u64::MAX
    } else {
        whole as u64
    };
    let tenth: u64 = seconds / 10;
    let jitter: u64 = if tenth < 1 {
        1
    } else {
        tenth
    };
    let shortened: u64 = seconds - jitter;
    let lower: u64 = if shortened < 1 {
        1
    } else {
        shortened
    };
    let upper: u64 = seconds.saturating_add(jitter);
    Some((lower, upper))
}

/// `Rng::gen_range` of rand on `rand::thread_rng`: a number from the range, both ends
/// included, that chance decides on.
#[verifier::external_body]
fn pick(low: u64, high: u64) -> (r: u64)
    requires
        low <= high,
    ensures
        low <= r <= high,
{
    rand::thread_rng().gen_range(low..=high)
}

/// The age that a connection may reach, in seconds: chance decides within the range.
/// Where the configured age is zero, connections are not rotated.
pub fn jittered_connection_age(base: u128) -> (r: Option<u64>)
    ensures
        match r {
            None => base == 0,
            Some(age) => base > 0 && (age_range(base as nat)->0).0 <= age && age <= (age_range(
                base as nat,
            )->0).1,
        },
{
    match connection_age_range(base) {
        None => None,
        Some((lower, upper)) => Some(pick(lower, upper)),
    }
}

/// What a command takes in memory: its bytes, of an IDENTIFY three times and something more, of a
/// batch room for the most messages that it can hold.
pub proof fn law_commands_take_their_bytes(command: Command, bytes: nat)
    requires
        bytes <= 1_000_000_000,
    ensures
        command is Identify ==> working_set(command, bytes) == 3 * bytes + 4096,
        command is MultiPublish ==> working_set(command, bytes) == bytes + 8_388_608,
        !(command is Identify) && !(command is MultiPublish) ==> working_set(command, bytes)
            == bytes,
{
}

/// A connection lives about as long as it is meant to: a tenth less or more, at least a second
/// either way, and never less than a second.
pub proof fn law_ages_are_a_tenth_apart(base: nat)
    requires
        base <= u64::MAX,
    ensures
        age_range(base) is None <==> base == 0,
        base >= 20_000_000_000 ==> ({
            let s = base / 1_000_000_000;
            (age_range(base)->0).0 == s - s / 10 && (age_range(base)->0).1 == s + s / 10
        }),
        base > 0 ==> 1 <= (age_range(base)->0).0 <= (age_range(base)->0).1,
        2_000_000_000 < base < 20_000_000_000 ==> ({
            let s = base / 1_000_000_000;
            (age_range(base)->0).1 == s + 1 && (s >= 3 ==> (age_range(base)->0).0 == s - 1)
        }),
{
}

} // verus!
