//! The health of the operator itself.
use crate::operator::status;
use crate::text;
use vstd::prelude::*;
use vstd::string::*;

verus! {

/// What the operator has done so far.
#[derive(Debug)]
pub struct HealthState {
    pub ready: bool,
    pub reconciles: u64,
    pub errors: u64,
    pub last_success_unix: i64,
}

/// The next value of a counter, which starts over after its largest.
pub open spec fn counted(n: u64) -> u64 {
    if n == u64::MAX {
        0
    } else {
        (n + 1) as u64
    }
}

fn count(n: u64) -> (r: u64)
    ensures
        r == counted(n),
{
    if n == u64::MAX {
        0
    } else {
        n + 1
    }
}

impl Default for HealthState {
    fn default() -> (r: Self)
        ensures
            r == (HealthState { ready: false, reconciles: 0, errors: 0, last_success_unix: 0 }),
    {
        HealthState { ready: false, reconciles: 0, errors: 0, last_success_unix: 0 }
    }
}

impl HealthState {
    /// Records a success at a time.
    pub fn record_success_at(&mut self, now: i64)
        ensures
            *final(self) == (HealthState {
                ready: true,
                reconciles: counted(old(self).reconciles),
                errors: old(self).errors,
                last_success_unix: now,
            }),
    {
        self.ready = true;
        self.reconciles = count(self.reconciles);
        self.last_success_unix = now;
    }

    /// Records a success now.
    pub fn record_success(&mut self)
        ensures
            final(self).ready,
            final(self).reconciles == counted(old(self).reconciles),
            final(self).errors == old(self).errors,
    {
        self.record_success_at(status::unix_now());
    }

    /// Records a failure.
    pub fn record_error(&mut self)
        ensures
            *final(self) == (HealthState { errors: counted(old(self).errors), ..*old(self) }),
    {
        self.errors = count(self.errors);
    }

    /// What is answered to who asks whether the operator is ready: a status code
    /// and a text.
    pub fn readiness(&self) -> (r: (u16, &'static str))
        ensures
            self.ready ==> r.0 == 200 && r.1@ == "ready\n"@,
            !self.ready ==> r.0 == 503 && r.1@ == "not ready\n"@,
    {
        if self.ready {
            (200, "ready\n")
        } else {
            (503, "not ready\n")
        }
    }

    /// The metrics of the operator.
    pub fn metrics(&self) -> (r: String)
        ensures
            r@ == "# TYPE rustqueue_operator_reconciles_total counter\nrustqueue_operator_reconciles_total "@
                + text::dec(self.reconciles as nat)
                + "\n# TYPE rustqueue_operator_reconcile_errors_total counter\nrustqueue_operator_reconcile_errors_total "@
                + text::dec(self.errors as nat)
                + "\n# TYPE rustqueue_operator_last_success_unixtime gauge\nrustqueue_operator_last_success_unixtime "@
                + text::dec_int(self.last_success_unix as int) + "\n"@,
    {
        let mut r =
            "# TYPE rustqueue_operator_reconciles_total counter\nrustqueue_operator_reconciles_total ".to_owned();
        r.append(text::decimal(self.reconciles).as_str());
        r.append(
            "\n# TYPE rustqueue_operator_reconcile_errors_total counter\nrustqueue_operator_reconcile_errors_total ",
        );
        r.append(text::decimal(self.errors).as_str());
        r.append(
            "\n# TYPE rustqueue_operator_last_success_unixtime gauge\nrustqueue_operator_last_success_unixtime ",
        );
        r.append(text::decimal_i64(self.last_success_unix).as_str());
        r.append("\n");
        r
    }
}

/// A counter goes up by one, and begins anew behind its last number.
pub proof fn law_counters_go_up(n: u64)
    ensures
        n < u64::MAX ==> counted(n) == n + 1,
        n == u64::MAX ==> counted(n) == 0,
{
}

/// The operator says that it is ready exactly where it is.
pub proof fn law_readiness_is_told(s: HealthState, r: (u16, &'static str))
    requires
        call_ensures(HealthState::readiness, (&s,), r),
    ensures
        r.0 == 200 <==> s.ready,
        r.0 == 503 <==> !s.ready,
{
}

/// An error is counted and changes nothing else.
pub proof fn law_errors_are_counted(r: ())
    ensures
        forall|s: &mut HealthState| #[trigger]
            call_ensures(HealthState::record_error, (s,), r) ==> final(s).ready == s.ready
                && final(s).reconciles == s.reconciles && final(s).last_success_unix
                == s.last_success_unix && (s.errors < u64::MAX ==> final(s).errors == s.errors + 1),
{
}

} // verus!
