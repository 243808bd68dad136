//! The fence that holds disruptions back until Kodo producers were restarted.
use crate::text;
use vstd::prelude::*;
use vstd::string::*;

verus! {

/// Whether the restart of the producers is confirmed, and against which nonce it
/// is measured.
#[derive(Debug, PartialEq, Eq)]
pub struct ProducerRestartFence {
    pub baseline_nonce: Option<String>,
    pub confirmed: bool,
}

/// The nonce that a restart is measured against: the one that was current when
/// the gateways were first advertised.
pub open spec fn baseline(
    enabled: bool,
    gateways_advertised: bool,
    current_nonce: Seq<char>,
    previous_baseline: Option<Seq<char>>,
) -> Option<Seq<char>> {
    if !enabled || !gateways_advertised {
        None
    } else {
        match previous_baseline {
            Some(b) => Some(b),
            None => Some(current_nonce),
        }
    }
}

/// Whether a restart is confirmed: the nonce changed after the gateways were
/// advertised.
pub open spec fn is_confirmed(
    enabled: bool,
    gateways_advertised: bool,
    current_nonce: Seq<char>,
    previous_baseline: Option<Seq<char>>,
) -> bool {
    enabled && gateways_advertised && previous_baseline is Some && previous_baseline->0
        != current_nonce
}

/// The fence for the current nonce. It is reset where the gateways are not
/// advertised.
pub fn producer_restart_fence(
    enabled: bool,
    gateways_advertised: bool,
    current_nonce: &str,
    previous_baseline: Option<&str>,
) -> (r: ProducerRestartFence)
    ensures
        text::opt_text(r.baseline_nonce) == baseline(
            enabled,
            gateways_advertised,
            current_nonce@,
            match previous_baseline {
                Some(b) => Some(b@),
                None => None,
            },
        ),
        r.confirmed == is_confirmed(
            enabled,
            gateways_advertised,
            current_nonce@,
            match previous_baseline {
                Some(b) => Some(b@),
                None => None,
            },
        ),
{
    if !enabled || !gateways_advertised {
        return ProducerRestartFence { baseline_nonce: None, confirmed: false };
    }
    match previous_baseline {
        None => ProducerRestartFence {
            baseline_nonce: Some(current_nonce.to_owned()),
            confirmed: false,
        },
        Some(b) => ProducerRestartFence {
            baseline_nonce: Some(b.to_owned()),
            confirmed: !text::str_eq(current_nonce, b),
        },
    }
}

/// The nonce that was current when the gateways were first advertised does not
/// confirm a restart, however often it is looked at; any other does.
pub proof fn law_restart_needs_a_changed_nonce(first: Seq<char>, later: Seq<char>)
    ensures
        !is_confirmed(true, true, first, None),
        baseline(true, true, later, baseline(true, true, first, None)) == Some(first),
        is_confirmed(true, true, later, baseline(true, true, first, None)) <==> later != first,
{
}

/// Once the gateways are no longer advertised, an earlier confirmation counts no
/// more: the nonce that is current when they are advertised again has to change.
pub proof fn law_lost_advertisement_resets_the_fence(
    nonce: Seq<char>,
    previous: Option<Seq<char>>,
)
    ensures
        baseline(true, false, nonce, previous) is None,
        !is_confirmed(true, true, nonce, baseline(true, false, nonce, previous)),
{
}

/// A restart is confirmed exactly where the gateways are advertised to clusters that serve Kodo
/// and the nonce differs from the one with which they first were; that one is remembered for as
/// long as they are.
pub proof fn law_restarts_are_confirmed_after_advertisement(
    enabled: bool,
    advertised: bool,
    nonce: Seq<char>,
    previous: Option<Seq<char>>,
)
    ensures
        is_confirmed(enabled, advertised, nonce, previous) <==> enabled && advertised && previous
            is Some && previous->0 != nonce,
        baseline(enabled, advertised, nonce, previous) is Some <==> enabled && advertised,
        enabled && advertised && previous is Some ==> baseline(enabled, advertised, nonce, previous)
            == previous,
        enabled && advertised && previous is None ==> baseline(enabled, advertised, nonce, previous)
            == Some(nonce),
{
}

} // verus!
