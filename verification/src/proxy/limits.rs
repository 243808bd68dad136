//! The settings of the proxy.
use crate::discovery::kube_source;
use crate::proxy::tcp;
use crate::{protocol, text};
use vstd::prelude::*;
use vstd::string::*;

verus! {

/// The limits that a proxy is started with.
#[derive(Clone, Debug)]
pub struct ProxyLimits {
    pub max_body_bytes: usize,
    pub max_message_bytes: usize,
    pub max_inflight_bytes: usize,
    pub max_connections: usize,
    pub http_body_timeout_ms: u64,
    pub tcp_max_connection_age_seconds: u64,
    pub tcp_command_timeout_ms: u64,
    pub shutdown_grace_seconds: u64,
    pub kodo_compatibility_enabled: bool,
}

impl Default for ProxyLimits {
    fn default() -> (r: Self)
        ensures
            r.max_body_bytes == 67_108_864,
            r.max_message_bytes == 20_971_520,
            r.max_inflight_bytes == 536_870_912,
            r.max_connections == 10_000,
            r.http_body_timeout_ms == 30_000,
            r.tcp_max_connection_age_seconds == 300,
            r.tcp_command_timeout_ms == 120_000,
            r.shutdown_grace_seconds == 30,
            !r.kodo_compatibility_enabled,
    {
        ProxyLimits {
            max_body_bytes: 67_108_864,
            max_message_bytes: 20_971_520,
            max_inflight_bytes: 536_870_912,
            max_connections: 10_000,
            http_body_timeout_ms: 30_000,
            tcp_max_connection_age_seconds: 300,
            tcp_command_timeout_ms: 120_000,
            shutdown_grace_seconds: 30,
            kodo_compatibility_enabled: false,
        }
    }
}

/// Whether the platform's clock can represent the ends of the timers.
#[derive(Clone, Copy, Debug)]
pub struct TimerRange {
    pub shutdown: bool,
    pub http_body: bool,
    pub tcp_command: bool,
    pub connection_age: bool,
}

/// What is wrong with the limits.
#[derive(Clone, Copy, Debug, PartialEq, Eq, Structural)]
pub enum LimitError {
    Contract,
    Capacity,
    Timers,
    Kodo,
}

impl LimitError {
    /// The error as a text.
    pub open spec fn text(self) -> Seq<char> {
        match self {
            LimitError::Contract => "proxy limits must be non-zero, fit the 100 MiB message and 128 MiB batch contract, and fit the inflight byte budget"@,
            LimitError::Capacity => "proxy limits exceed the runtime semaphore capacity"@,
            LimitError::Timers => "proxy timeouts exceed the platform timer range"@,
            LimitError::Kodo => "Kodo compatibility requires the 100 MiB message and 128 MiB batch limits plus their parsing working set"@,
        }
    }

    /// The error as a text.
    pub fn message(self) -> (r: &'static str)
        ensures
            r@ == self.text(),
    {
        match self {
            LimitError::Contract => "proxy limits must be non-zero, fit the 100 MiB message and 128 MiB batch contract, and fit the inflight byte budget",
            LimitError::Capacity => "proxy limits exceed the runtime semaphore capacity",
            LimitError::Timers => "proxy timeouts exceed the platform timer range",
            LimitError::Kodo => "Kodo compatibility requires the 100 MiB message and 128 MiB batch limits plus their parsing working set",
        }
    }
}

/// `tokio::sync::Semaphore::MAX_PERMITS`: an eighth of the largest number.
#[verifier::external_body]
fn max_permits() -> (r: usize)
    ensures
        r == usize::MAX / 8,
{
    tokio::sync::Semaphore::MAX_PERMITS
}

/// Whether the limits keep to the sizes of messages and batches.
pub open spec fn within_contract(l: ProxyLimits) -> bool {
    &&& 0 < l.max_message_bytes <= l.max_body_bytes
    &&& l.max_message_bytes <= protocol::MAX_MESSAGE_BYTES
    &&& l.max_body_bytes <= protocol::MAX_BATCH_BYTES
    &&& l.max_body_bytes <= l.max_inflight_bytes <= u32::MAX
    &&& l.max_connections > 0
    &&& l.http_body_timeout_ms > 0
    &&& l.tcp_command_timeout_ms > 0
    &&& l.shutdown_grace_seconds > 0
}

/// Whether the limits are those that a gateway for Kodo needs.
pub open spec fn fits_kodo(l: ProxyLimits) -> bool {
    &&& l.max_message_bytes == protocol::MAX_MESSAGE_BYTES
    &&& l.max_body_bytes == protocol::MAX_BATCH_BYTES
    &&& l.max_inflight_bytes >= tcp::largest_working_set(
        l.max_message_bytes as nat,
        l.max_body_bytes as nat,
    )
}

/// The first thing that is wrong with the limits.
pub open spec fn limit_error(l: ProxyLimits, timers: TimerRange) -> Option<LimitError> {
    if !within_contract(l) {
        Some(LimitError::Contract)
    } else if l.max_connections > usize::MAX / 8 || l.max_inflight_bytes > usize::MAX / 8 {
        Some(LimitError::Capacity)
    } else if l.shutdown_grace_seconds + 2 > u64::MAX || !timers.shutdown || !timers.http_body
        || !timers.tcp_command || !timers.connection_age {
        Some(LimitError::Timers)
    } else if l.kodo_compatibility_enabled && !fits_kodo(l) {
        Some(LimitError::Kodo)
    } else {
        None
    }
}

/// Checks the limits that a proxy is started with.
pub fn validate_proxy_limits(l: &ProxyLimits, timers: TimerRange) -> (r: Result<(), LimitError>)
    ensures
        match r {
            Ok(()) => limit_error(*l, timers) is None,
            Err(e) => limit_error(*l, timers) == Some(e),
        },
{
    if l.max_body_bytes == 0 || l.max_message_bytes == 0 || l.max_message_bytes > l.max_body_bytes
        || l.max_message_bytes > protocol::MAX_MESSAGE_BYTES || l.max_body_bytes
        > protocol::MAX_BATCH_BYTES || l.max_inflight_bytes == 0 || l.max_inflight_bytes
        < l.max_body_bytes || l.max_inflight_bytes > u32::MAX as usize || l.max_connections == 0
        || l.http_body_timeout_ms == 0 || l.tcp_command_timeout_ms == 0 || l.shutdown_grace_seconds
        == 0 {
        return Err(LimitError::Contract);
    }
    let capacity = max_permits();
    if l.max_connections > capacity || l.max_inflight_bytes > capacity {
        return Err(LimitError::Capacity);
    }
    if l.shutdown_grace_seconds.checked_add(2).is_none() || !timers.shutdown || !timers.http_body
        || !timers.tcp_command || !timers.connection_age {
        return Err(LimitError::Timers);
    }
    if l.kodo_compatibility_enabled && (l.max_message_bytes != protocol::MAX_MESSAGE_BYTES
        || l.max_body_bytes != protocol::MAX_BATCH_BYTES || l.max_inflight_bytes
        < tcp::maximum_gateway_working_set(l.max_message_bytes, l.max_body_bytes)) {
        return Err(LimitError::Kodo);
    }
    Ok(())
}

/// What became of a task: nothing, or the text of its error.
pub open spec fn outcome(r: Result<(), String>) -> Option<Seq<char>> {
    match r {
        Ok(()) => None,
        Err(e) => Some(e@),
    }
}

/// The error of a task that ended although it should not have.
pub fn unexpected_task_exit(name: &str, result: Result<(), String>) -> (r: String)
    ensures
        r@ == match outcome(result) {
            None => name@ + " task stopped unexpectedly"@,
            Some(e) => name@ + " task failed: "@ + e,
        },
{
    let mut r = name.to_owned();
    match result {
        Ok(()) => {
            r.append(" task stopped unexpectedly");
        },
        Err(error) => {
            r.append(" task failed: ");
            r.append(error.as_str());
        },
    }
    r
}

/// What the process ends with: the error of its work, that of its shutdown, or both.
pub fn combine_results(terminal: Result<(), String>, cleanup: Result<(), String>) -> (r: Result<
    (),
    String,
>)
    ensures
        outcome(r) == match (outcome(terminal), outcome(cleanup)) {
            (None, None) => None,
            (Some(e), None) => Some(e),
            (None, Some(e)) => Some(e),
            (Some(t), Some(c)) => Some(t + "; shutdown cleanup also failed: "@ + c),
        },
{
    match (terminal, cleanup) {
        (Ok(()), Ok(())) => Ok(()),
        (Err(error), Ok(())) => Err(error),
        (Ok(()), Err(error)) => Err(error),
        (Err(terminal), Err(cleanup)) => {
            let mut r = terminal;
            r.append("; shutdown cleanup also failed: ");
            r.append(cleanup.as_str());
            Err(r)
        },
    }
}

/// How a gateway for Kodo is set up.
#[derive(Clone, Debug)]
pub struct KodoConfig {
    pub ordinal: usize,
    pub cleanup_enabled: bool,
    pub cleanup_token: Option<String>,
    pub registry_token: Option<String>,
}

/// Why no gateway for Kodo can be set up.
#[derive(Clone, Copy, Debug, PartialEq, Eq, Structural)]
pub enum KodoConfigError {
    CleanupDisabled,
    OrdinalWithoutCompatibility,
    OrdinalRequired,
    OrdinalOutOfRange,
}

impl KodoConfigError {
    /// The error as a text.
    pub open spec fn text(self) -> Seq<char> {
        match self {
            KodoConfigError::CleanupDisabled => "Kodo automatic cleanup is disabled until cluster-wide atomic deletion is available"@,
            KodoConfigError::OrdinalWithoutCompatibility => "Kodo cleanup and gateway ordinal require Kodo compatibility"@,
            KodoConfigError::OrdinalRequired => "Kodo gateway ordinal is required"@,
            KodoConfigError::OrdinalOutOfRange => "Kodo gateway ordinal must be in 0..3"@,
        }
    }

    /// The error as a text.
    pub fn message(self) -> (r: &'static str)
        ensures
            r@ == self.text(),
    {
        match self {
            KodoConfigError::CleanupDisabled => "Kodo automatic cleanup is disabled until cluster-wide atomic deletion is available",
            KodoConfigError::OrdinalWithoutCompatibility => "Kodo cleanup and gateway ordinal require Kodo compatibility",
            KodoConfigError::OrdinalRequired => "Kodo gateway ordinal is required",
            KodoConfigError::OrdinalOutOfRange => "Kodo gateway ordinal must be in 0..3",
        }
    }
}

/// The ordinal at the end of a pod's name.
pub open spec fn pod_ordinal(name: Seq<char>) -> Option<nat> {
    match text::after_last(name, '-') {
        Some(t) => text::parsed_unsigned(t, 10, usize::MAX as nat),
        None => None,
    }
}

/// The configured ordinal, or that of the pod.
pub open spec fn chosen_ordinal(configured: Option<usize>, pod_name: Option<Seq<char>>) -> Option<
    nat,
> {
    match configured {
        Some(n) => Some(n as nat),
        None => match pod_name {
            Some(name) => pod_ordinal(name),
            None => None,
        },
    }
}

/// The ordinal of a gateway for Kodo: nothing where there is to be none.
pub open spec fn ordinal_setting(
    compatibility: bool,
    cleanup: bool,
    configured: Option<usize>,
    pod_name: Option<Seq<char>>,
) -> Result<Option<nat>, KodoConfigError> {
    if cleanup {
        Err(KodoConfigError::CleanupDisabled)
    } else if !compatibility {
        if configured is Some {
            Err(KodoConfigError::OrdinalWithoutCompatibility)
        } else {
            Ok(None)
        }
    } else {
        match chosen_ordinal(configured, pod_name) {
            None => Err(KodoConfigError::OrdinalRequired),
            Some(n) => if n >= 3 {
                Err(KodoConfigError::OrdinalOutOfRange)
            } else {
                Ok(Some(n))
            },
        }
    }
}

/// The ordinal of a gateway for Kodo: nothing where there is to be none.
pub fn kodo_ordinal(
    compatibility: bool,
    cleanup: bool,
    configured: Option<usize>,
    pod_name: Option<&str>,
) -> (r: Result<Option<usize>, KodoConfigError>)
    ensures
        ({
            let named: Option<Seq<char>> = match pod_name {
                Some(s) => Some(s@),
                None => None,
            };
            match r {
                Ok(None) => ordinal_setting(compatibility, cleanup, configured, named) == Ok::<
                    Option<nat>,
                    KodoConfigError,
                >(None),
                Ok(Some(n)) => ordinal_setting(compatibility, cleanup, configured, named) == Ok::<
                    Option<nat>,
                    KodoConfigError,
                >(Some(n as nat)),
                Err(e) => ordinal_setting(compatibility, cleanup, configured, named) == Err::<
                    Option<nat>,
                    KodoConfigError,
                >(e),
            }
        }),
{
    if cleanup {
        return Err(KodoConfigError::CleanupDisabled);
    }
    if !compatibility {
        if configured.is_some() {
            return Err(KodoConfigError::OrdinalWithoutCompatibility);
        }
        return Ok(None);
    }
    let ordinal: Option<usize> = match configured {
        Some(n) => Some(n),
        None => match pod_name {
            None => None,
            Some(name) => {
                let v = text::chars_of(name);
                match text::tail_after_last(v.as_slice(), '-') {
                    None => None,
                    Some(i) => {
                        let tail = text::text_of(v.as_slice(), i, v.len());
                        assert(tail@ =~= name@.skip(i as int));
                        match text::parse_decimal(tail.as_str(), usize::MAX as u64) {
                            None => None,
                            Some(n) => Some(n as usize),
                        }
                    },
                }
            },
        },
    };
    match ordinal {
        None => Err(KodoConfigError::OrdinalRequired),
        Some(n) => if n >= 3 {
            Err(KodoConfigError::OrdinalOutOfRange)
        } else {
            Ok(Some(n))
        },
    }
}

/// The token in a file's content: nothing where there is no file or it is blank.
pub open spec fn token_in(content: Option<Seq<char>>) -> Option<Seq<char>> {
    match content {
        Some(c) => if text::is_blank(c) {
            None
        } else {
            Some(text::trimmed(c))
        },
        None => None,
    }
}

/// The token in a file's content: nothing where there is no file or it is blank.
pub fn read_token(content: Option<&str>) -> (r: Option<String>)
    ensures
        text::opt_text(r) == token_in(
            match content {
                Some(c) => Some(c@),
                None => None,
            },
        ),
{
    match content {
        Some(c) => kube_source::load_registry_token(c),
        None => None,
    }
}

/// Limits are accepted exactly where they are set, a largest message fits a largest request and a
/// largest request the bytes in flight, each within the protocol, and the machine can keep to
/// them; Kodo needs the largest that there are.
pub proof fn law_accepted_limits_fit_each_other(l: ProxyLimits, timers: TimerRange)
    ensures
        limit_error(l, timers) is None <==> {
            &&& 0 < l.max_message_bytes <= l.max_body_bytes <= l.max_inflight_bytes <= u32::MAX
            &&& l.max_message_bytes <= 104_857_600 && l.max_body_bytes <= 134_217_728
            &&& l.max_connections > 0 && l.http_body_timeout_ms > 0 && l.tcp_command_timeout_ms > 0
            &&& l.shutdown_grace_seconds > 0 && l.shutdown_grace_seconds + 2 <= u64::MAX
            &&& l.max_connections <= usize::MAX / 8 && l.max_inflight_bytes <= usize::MAX / 8
            &&& timers.shutdown && timers.http_body && timers.tcp_command && timers.connection_age
            &&& l.kodo_compatibility_enabled ==> l.max_message_bytes == 104_857_600
                && l.max_body_bytes == 134_217_728 && l.max_inflight_bytes
                >= tcp::largest_working_set(104_857_600, 134_217_728)
        },
        limit_error(l, timers) == Some(LimitError::Kodo) ==> l.kodo_compatibility_enabled,
        limit_error(l, timers) == Some(LimitError::Timers) ==> l.shutdown_grace_seconds + 2
            > u64::MAX || !(timers.shutdown && timers.http_body && timers.tcp_command
            && timers.connection_age),
        limit_error(l, timers) == Some(LimitError::Capacity) ==> l.max_connections > usize::MAX / 8
            || l.max_inflight_bytes > usize::MAX / 8,
{
}

/// A gateway for Kodo has the place that is configured, else the one that its name ends in, and
/// it is one of three; there is none without Kodo.
pub proof fn law_gateways_have_one_of_three_places(
    compatibility: bool,
    cleanup: bool,
    configured: Option<usize>,
    pod_name: Option<Seq<char>>,
)
    ensures
        ({
            let r = ordinal_setting(compatibility, cleanup, configured, pod_name);
            &&& r matches Ok(Some(n)) ==> n < 3 && compatibility && !cleanup
            &&& r matches Ok(Some(n)) ==> (configured is Some ==> n == configured->0)
            &&& r matches Ok(None) ==> !compatibility && !cleanup && configured is None
            &&& compatibility && !cleanup && configured is Some && configured->0 < 3 ==> r == Ok::<
                Option<nat>,
                KodoConfigError,
            >(Some(configured->0 as nat))
            &&& compatibility && !cleanup && configured is Some && configured->0 >= 3 ==> r
                == Err::<Option<nat>, KodoConfigError>(KodoConfigError::OrdinalOutOfRange)
            &&& cleanup ==> r == Err::<Option<nat>, KodoConfigError>(
                KodoConfigError::CleanupDisabled,
            )
            &&& compatibility && !cleanup && configured is None && pod_name is None ==> r == Err::<
                Option<nat>,
                KodoConfigError,
            >(KodoConfigError::OrdinalRequired)
            &&& !compatibility && !cleanup && configured is Some ==> r == Err::<
                Option<nat>,
                KodoConfigError,
            >(KodoConfigError::OrdinalWithoutCompatibility)
            &&& !compatibility && !cleanup && configured is None ==> r == Ok::<
                Option<nat>,
                KodoConfigError,
            >(None)
        }),
{
}

/// The place in a pod name is the number behind its last hyphen.
pub proof fn law_pod_names_end_in_their_place(stem: Seq<char>, n: nat)
    requires
        n <= usize::MAX,
    ensures
        pod_ordinal(stem + "-"@ + text::dec(n)) == Some(n),
{
    let name = stem + "-"@ + text::dec(n);
    let d = text::dec(n);
    reveal_strlit("-");
    text::lemma_dec_value(n);
    text::lemma_dec_round_trip(n, usize::MAX as nat);
    assert(name[stem.len() as int] == '-');
    assert forall|j: int| stem.len() < j < name.len() implies name[j] != '-' by {
        assert(name[j] == d[j - stem.len() as int - 1]);
    }
    text::lemma_after_last(name, '-', stem.len() as int);
    assert(name.skip(stem.len() as int + 1) =~= d);
}

/// Of two failures both are told.
pub proof fn law_no_failure_is_lost(
    a: Result<(), String>,
    b: Result<(), String>,
    r: Result<(), String>,
)
    requires
        call_ensures(combine_results, (a, b), r),
    ensures
        r is Ok <==> a is Ok && b is Ok,
        a is Err && b is Ok ==> r is Err && r->Err_0@ == a->Err_0@,
        a is Ok && b is Err ==> r is Err && r->Err_0@ == b->Err_0@,
        a is Err && b is Err ==> r is Err && text::starts(r->Err_0@, a->Err_0@) && text::ends(
            r->Err_0@,
            b->Err_0@,
        ),
{
    if a is Err && b is Err {
        let t = r->Err_0@;
        assert(t.take(a->Err_0@.len() as int) =~= a->Err_0@);
        assert(t.skip(t.len() - b->Err_0@.len()) =~= b->Err_0@);
    }
}

/// A token is what a file holds, without the spaces round it; a blank file holds none.
pub proof fn law_blank_files_hold_no_token(content: Option<Seq<char>>)
    ensures
        token_in(content) is Some <==> content is Some && !text::is_blank(content->0),
        token_in(content) is Some ==> token_in(content)->0 == text::trimmed(content->0),
{
}

} // verus!
