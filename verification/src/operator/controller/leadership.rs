//! Which of several operators leads.
use crate::text;
use vstd::prelude::*;
use vstd::string::*;

verus! {

/// The name of the lease.
pub const LEASE_NAME: &'static str = "rustqueue-operator-leader";

/// How long a lease lasts without renewal, in seconds.
pub const LEASE_SECONDS: i32 = 20;

/// A lease. Its times are texts.
#[derive(Debug)]
pub struct Lease {
    pub namespace: String,
    pub resource_version: Option<String>,
    pub holder: Option<String>,
    pub duration_seconds: Option<i32>,
    pub acquire_time: Option<String>,
    pub renew_time: Option<String>,
    pub transitions: Option<i32>,
}

/// `Lease` as values.
pub struct LeaseView {
    pub namespace: Seq<char>,
    pub resource_version: Option<Seq<char>>,
    pub holder: Option<Seq<char>>,
    pub duration_seconds: Option<i32>,
    pub acquire_time: Option<Seq<char>>,
    pub renew_time: Option<Seq<char>>,
    pub transitions: Option<i32>,
}

impl View for Lease {
    type V = LeaseView;

    open spec fn view(&self) -> LeaseView {
        LeaseView {
            namespace: self.namespace@,
            resource_version: text::opt_text(self.resource_version),
            holder: text::opt_text(self.holder),
            duration_seconds: self.duration_seconds,
            acquire_time: text::opt_text(self.acquire_time),
            renew_time: text::opt_text(self.renew_time),
            transitions: self.transitions,
        }
    }
}

/// What shows that a lease was not renewed.
#[derive(Debug)]
pub struct LeaseFingerprint {
    pub holder: Option<String>,
    pub resource_version: Option<String>,
    pub renew_time: Option<String>,
}

/// `LeaseFingerprint` as values.
pub struct FingerprintView {
    pub holder: Option<Seq<char>>,
    pub resource_version: Option<Seq<char>>,
    pub renew_time: Option<Seq<char>>,
}

impl View for LeaseFingerprint {
    type V = FingerprintView;

    open spec fn view(&self) -> FingerprintView {
        FingerprintView {
            holder: text::opt_text(self.holder),
            resource_version: text::opt_text(self.resource_version),
            renew_time: text::opt_text(self.renew_time),
        }
    }
}

/// Watches a lease by the local clock: what was seen, and since when, in
/// nanoseconds.
#[derive(Debug)]
pub struct LeaseObserver {
    pub observed: Option<(LeaseFingerprint, u128)>,
}

impl View for LeaseObserver {
    type V = Option<(FingerprintView, u128)>;

    open spec fn view(&self) -> Option<(FingerprintView, u128)> {
        match self.observed {
            Some((f, since)) => Some((f@, since)),
            None => None,
        }
    }
}

impl Default for LeaseObserver {
    fn default() -> (r: Self)
        ensures
            r@ is None,
    {
        LeaseObserver { observed: None }
    }
}

/// What shows that a lease was not renewed.
pub open spec fn fingerprint(lease: LeaseView) -> FingerprintView {
    FingerprintView {
        holder: lease.holder,
        resource_version: lease.resource_version,
        renew_time: lease.renew_time,
    }
}

/// Whether nobody holds a lease.
pub open spec fn is_free(lease: LeaseView) -> bool {
    lease.holder is None || lease.holder->0.len() == 0
}

/// How long a lease lasts, in seconds: at least one.
pub open spec fn lifetime(lease: LeaseView) -> int {
    match lease.duration_seconds {
        Some(n) => if n >= 1 {
            n as int
        } else {
            1
        },
        None => LEASE_SECONDS as int,
    }
}

/// Whether a lease was seen unchanged for its lifetime.
pub open spec fn is_expired(
    observed: Option<(FingerprintView, u128)>,
    lease: LeaseView,
    now: u128,
) -> bool {
    observed is Some && (observed->0).0 == fingerprint(lease) && now - (observed->0).1 >= lifetime(
        lease,
    ) * 1000000000
}

/// What is remembered once a lease was looked at: a lease that changed is watched
/// from now on.
pub open spec fn observed_after(
    observed: Option<(FingerprintView, u128)>,
    lease: LeaseView,
    now: u128,
) -> Option<(FingerprintView, u128)> {
    if is_free(lease) || (observed is Some && (observed->0).0 == fingerprint(lease)) {
        observed
    } else {
        Some((fingerprint(lease), now))
    }
}

impl LeaseObserver {
    /// Whether a lease may be taken over: nobody holds it, or it was seen
    /// unchanged for its lifetime by the local clock.
    pub fn takeover_ready(&mut self, lease: &Lease, now: u128) -> (r: bool)
        ensures
            r == (is_free(lease@) || is_expired(old(self)@, lease@, now)),
            final(self)@ == observed_after(old(self)@, lease@, now),
    {
        let free = match &lease.holder {
            None => true,
            Some(h) => {
                proof {
                    reveal_strlit("");
                    assert(h@.len() == 0 ==> h@ =~= ""@);
                }
                text::str_eq(h.as_str(), "")
            },
        };
        if free {
            return true;
        }
        let seconds: u128 = match lease.duration_seconds {
            Some(n) => if n >= 1 {
                n as u128
            } else {
                1
            },
            None => 20,
        };
        let mut expired = false;
        let mut same = false;
        if let Some((seen, since)) = &self.observed {
            same = text::opt_eq(&seen.holder, &lease.holder) && text::opt_eq(
                &seen.resource_version,
                &lease.resource_version,
            ) && text::opt_eq(&seen.renew_time, &lease.renew_time);
            if same {
                expired = now >= *since && now - *since >= seconds * 1000000000;
            }
        }
        if !same {
            self.observed =
            Some(
                (
                    LeaseFingerprint {
                        holder: text::clone_opt(&lease.holder),
                        resource_version: text::clone_opt(&lease.resource_version),
                        renew_time: text::clone_opt(&lease.renew_time),
                    },
                    now,
                ),
            );
        }
        expired
    }
}

/// What to do about the lease.
#[derive(Debug)]
pub enum LeaseStep {
    /// Create it.
    Create,
    /// Leave it to its holder.
    Wait,
    /// Renew it, or take it over.
    Replace { renewing: bool },
}

/// What to do about the lease: its holder renews it, others wait until they may
/// take it over.
pub fn acquire_or_renew(
    observer: &mut LeaseObserver,
    lease: Option<&Lease>,
    identity: &str,
    now: u128,
) -> (r: LeaseStep)
    ensures
        match lease {
            None => r is Create && final(observer)@ == old(observer)@,
            Some(l) => if l@.holder == Some(identity@) {
                r == (LeaseStep::Replace { renewing: true }) && final(observer)@ == old(
                    observer,
                )@
            } else {
                &&& final(observer)@ == observed_after(old(observer)@, l@, now)
                &&& r == if is_free(l@) || is_expired(old(observer)@, l@, now) {
                    LeaseStep::Replace { renewing: false }
                } else {
                    LeaseStep::Wait
                }
            },
        },
{
    match lease {
        None => LeaseStep::Create,
        Some(l) => {
            if text::opt_is(&l.holder, identity) {
                return LeaseStep::Replace { renewing: true };
            }
            if observer.takeover_ready(l, now) {
                LeaseStep::Replace { renewing: false }
            } else {
                LeaseStep::Wait
            }
        },
    }
}

/// The lease once it is renewed or taken over.
pub open spec fn renewed(
    lease: LeaseView,
    identity: Seq<char>,
    renewing: bool,
    time: Seq<char>,
) -> LeaseView {
    let before: int = match lease.transitions {
        Some(n) => n as int,
        None => 0,
    };
    LeaseView {
        holder: Some(identity),
        duration_seconds: Some(LEASE_SECONDS),
        renew_time: Some(time),
        acquire_time: if renewing {
            lease.acquire_time
        } else {
            Some(time)
        },
        transitions: if renewing {
            lease.transitions
        } else if before == i32::MAX {
            Some(i32::MAX)
        } else {
            Some((before + 1) as i32)
        },
        ..lease
    }
}

/// The lease once it is renewed or taken over. A takeover counts as a transition.
pub fn renew(lease: Lease, identity: &str, renewing: bool, time: &str) -> (r: Lease)
    ensures
        r@ == renewed(lease@, identity@, renewing, time@),
{
    let mut l = lease;
    if !renewing {
        l.acquire_time = Some(time.to_owned());
        let before: i32 = match l.transitions {
            Some(n) => n,
            None => 0,
        };
        l.transitions =
        Some(
            if before == i32::MAX {
                i32::MAX
            } else {
                before + 1
            },
        );
    }
    l.holder = Some(identity.to_owned());
    l.duration_seconds = Some(LEASE_SECONDS);
    l.renew_time = Some(time.to_owned());
    l
}

/// The lease where there was none.
pub fn desired_lease(namespace: &str, identity: &str, time: &str) -> (r: Lease)
    ensures
        r@ == (LeaseView {
            namespace: namespace@,
            resource_version: None,
            holder: Some(identity@),
            duration_seconds: Some(LEASE_SECONDS),
            acquire_time: Some(time@),
            renew_time: Some(time@),
            transitions: Some(0),
        }),
{
    Lease {
        namespace: namespace.to_owned(),
        resource_version: None,
        holder: Some(identity.to_owned()),
        duration_seconds: Some(LEASE_SECONDS),
        acquire_time: Some(time.to_owned()),
        renew_time: Some(time.to_owned()),
        transitions: Some(0),
    }
}

/// A lease that another holds is not taken over before it was seen unchanged for
/// its whole lifetime, however its own times read: seen at one time and again
/// before its lifetime is over, it is left alone.
pub proof fn law_held_lease_is_left_for_its_lifetime(
    observed: Option<(FingerprintView, u128)>,
    lease: LeaseView,
    first: u128,
    later: u128,
)
    requires
        !is_free(lease),
        observed is None || (observed->0).0 != fingerprint(lease),
        later - first < lifetime(lease) * 1000000000,
    ensures
        !is_expired(observed, lease, first),
        !is_expired(observed_after(observed, lease, first), lease, later),
{
}

/// An operator that took the lease renews it: it is never left without a leader
/// by its own doing.
pub proof fn law_taken_lease_is_held(
    lease: LeaseView,
    identity: Seq<char>,
    renewing: bool,
    time: Seq<char>,
)
    ensures
        renewed(lease, identity, renewing, time).holder == Some(identity),
        lifetime(renewed(lease, identity, renewing, time)) == LEASE_SECONDS,
{
}

/// A lease is taken over exactly where nobody holds it, or where it has been seen unchanged for
/// as long as it lasts; whoever holds it renews it.
pub proof fn law_leases_are_taken_when_they_have_run_out(
    observed: Option<(FingerprintView, u128)>,
    lease: LeaseView,
    now: u128,
)
    ensures
        ({
            let lasts: int = match lease.duration_seconds {
                Some(n) => if n >= 1 {
                    n as int
                } else {
                    1
                },
                None => 20,
            };
            let same = observed is Some && (observed->0).0.holder == lease.holder && (
            observed->0).0.resource_version == lease.resource_version && (observed->0).0.renew_time
                == lease.renew_time;
            &&& is_free(lease) <==> lease.holder is None || lease.holder->0.len() == 0
            &&& is_expired(observed, lease, now) <==> same && now - (observed->0).1 >= lasts
                * 1_000_000_000
            &&& !is_free(lease) && !same ==> observed_after(observed, lease, now) is Some && (
            observed_after(observed, lease, now)->0).1 == now
            &&& is_free(lease) || same ==> observed_after(observed, lease, now) == observed
        }),
{
}

/// Renewing keeps since when a lease is held and how often it changed hands; taking it over sets
/// the one to now and counts the other up.
pub proof fn law_takeovers_are_counted(
    lease: LeaseView,
    identity: Seq<char>,
    renewing: bool,
    time: Seq<char>,
)
    ensures
        ({
            let r = renewed(lease, identity, renewing, time);
            &&& r.holder == Some(identity) && r.renew_time == Some(time)
            &&& r.duration_seconds == Some(20i32)
            &&& r.namespace == lease.namespace && r.resource_version == lease.resource_version
            &&& renewing ==> r.acquire_time == lease.acquire_time && r.transitions
                == lease.transitions
            &&& !renewing ==> r.acquire_time == Some(time) && r.transitions is Some
            &&& !renewing && lease.transitions is Some && lease.transitions->0 < i32::MAX
                ==> r.transitions->0 == lease.transitions->0 + 1
            &&& !renewing && lease.transitions is None ==> r.transitions->0 == 1
        }),
{
}

/// A lease is made where there is none, renewed by whoever holds it, and taken over only where it
/// is free or has been seen unchanged for as long as it lasts.
pub proof fn law_leases_are_taken_over_when_they_may_be(
    lease: Lease,
    identity: &str,
    now: u128,
    r: LeaseStep,
)
    ensures
        forall|o: &mut LeaseObserver| #[trigger]
            call_ensures(acquire_or_renew, (o, None::<&Lease>, identity, now), r) ==> r is Create
                && final(o)@ == o@,
        forall|o: &mut LeaseObserver| #[trigger]
            call_ensures(acquire_or_renew, (o, Some(&lease), identity, now), r) ==> ({
                let own = lease@.holder == Some(identity@);
                let free = lease@.holder is None || lease@.holder->0.len() == 0;
                &&& own ==> r == (LeaseStep::Replace { renewing: true })
                &&& !own && free ==> r == (LeaseStep::Replace { renewing: false })
                &&& !own && !free && o@ is None ==> r is Wait && final(o)@ is Some && (
                final(o)@->0).1 == now
                &&& r is Wait ==> !own && !free
                &&& !own && !free && r is Replace ==> o@ is Some && (o@->0).0.renew_time
                    == lease@.renew_time && (o@->0).0.holder == lease@.holder && now - (o@->0).1
                    >= 1_000_000_000
            }),
{
}

} // verus!
