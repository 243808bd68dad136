//! Conditions of a federated cluster and the clock that stamps them.
use crate::operator::cluster::{ClusterCondition, ConditionView};
use vstd::prelude::*;
use vstd::string::*;

verus! {

/// `True` or `False`.
pub open spec fn flag_text(value: bool) -> Seq<char> {
    if value {
        "True"@
    } else {
        "False"@
    }
}

/// `True` or `False`.
pub fn flag(value: bool) -> (r: String)
    ensures
        r@ == flag_text(value),
{
    if value {
        "True".to_owned()
    } else {
        "False".to_owned()
    }
}

/// A condition that was observed at a time.
pub open spec fn condition_at(
    generation: Option<i64>,
    type_: Seq<char>,
    status: bool,
    reason: Seq<char>,
    message: Seq<char>,
    time: Seq<char>,
) -> ConditionView {
    ConditionView {
        type_,
        status: flag_text(status),
        reason,
        message,
        last_transition_time: time,
        observed_generation: generation,
    }
}

/// A condition that was observed at the given time.
pub fn stamped_condition(
    generation: Option<i64>,
    type_: &str,
    status: bool,
    reason: &str,
    message: &str,
    time: &str,
) -> (r: ClusterCondition)
    ensures
        r@ == condition_at(generation, type_@, status, reason@, message@, time@),
{
    ClusterCondition {
        type_: type_.to_owned(),
        status: flag(status),
        reason: reason.to_owned(),
        message: message.to_owned(),
        last_transition_time: time.to_owned(),
        observed_generation: generation,
    }
}

/// A condition that is observed now.
pub fn condition(
    generation: Option<i64>,
    type_: &str,
    status: bool,
    reason: &str,
    message: &str,
) -> (r: ClusterCondition)
    ensures
        r@ == condition_at(
            generation,
            type_@,
            status,
            reason@,
            message@,
            r.last_transition_time@,
        ),
{
    let time = now();
    stamped_condition(generation, type_, status, reason, message, time.as_str())
}

/// The time in RFC 3339 notation, by `time::OffsetDateTime::now_utc` and its
/// `format`. What the clock shows is left open.
#[verifier::external_body]
pub fn now() -> (r: String) {
    time::OffsetDateTime::now_utc()
        .format(&time::format_description::well_known::Rfc3339)
        .unwrap_or_else(|_| time::OffsetDateTime::now_utc().unix_timestamp().to_string())
}

/// The time in seconds since the epoch, by `time::OffsetDateTime::now_utc` and
/// its `unix_timestamp`. What the clock shows is left open.
#[verifier::external_body]
pub fn unix_now() -> (r: i64) {
    time::OffsetDateTime::now_utc().unix_timestamp()
}

/// What `time::OffsetDateTime::parse` reads from RFC 3339 notation, in seconds
/// since the epoch.
pub uninterp spec fn rfc3339_seconds(value: Seq<char>) -> Option<i64>;

/// Reads RFC 3339 notation with `time::OffsetDateTime::parse` and gives its
/// `unix_timestamp`, or `None` where it does not parse.
#[verifier::external_body]
pub(crate) fn parse_rfc3339(value: &str) -> (r: Option<i64>)
    ensures
        r == rfc3339_seconds(value@),
{
    time::OffsetDateTime::parse(value, &time::format_description::well_known::Rfc3339)
        .ok()
        .map(|t| t.unix_timestamp())
}

} // verus!
