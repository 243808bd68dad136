//! The volume claims of a cluster: which are too small, and which are left over.
use crate::operator::kube::{Claim, StatefulSet};
use crate::text;
use crate::text_list;
use vstd::prelude::*;
use vstd::string::*;

verus! {

/// How far the volumes are.
#[derive(Clone, Copy, Debug, PartialEq, Eq, Structural)]
pub enum StorageState {
    Ready,
    Resizing,
    Blocked,
}

/// What was found of the volumes.
#[derive(Debug)]
pub struct StorageReport {
    pub state: StorageState,
    pub message: String,
    pub orphaned_pvcs: Vec<String>,
}

/// `StorageReport` as values.
pub struct StorageView {
    pub state: StorageState,
    pub message: Seq<char>,
    pub orphaned_pvcs: Seq<Seq<char>>,
}

impl View for StorageReport {
    type V = StorageView;

    open spec fn view(&self) -> StorageView {
        StorageView {
            state: self.state,
            message: self.message@,
            orphaned_pvcs: text::texts(self.orphaned_pvcs@),
        }
    }
}

/// A claim with the sizes that its texts stand for, where they can be read.
#[derive(Debug)]
pub struct MeasuredClaim {
    pub claim: Claim,
    pub requested: Option<u128>,
    pub capacity: Option<u128>,
}

impl MeasuredClaim {
    /// What the claim asks for; nothing where it does not say.
    pub open spec fn request(self) -> Option<u128> {
        if self.claim.request is None {
            Some(0)
        } else {
            self.requested
        }
    }

    /// What the claim has; nothing where it does not say.
    pub open spec fn held(self) -> Option<u128> {
        if self.claim.capacity is None {
            Some(0)
        } else {
            self.capacity
        }
    }
}

/// What is asked of the volumes.
pub struct StorageDemand<'a> {
    pub cluster: &'a str,
    pub storage_class: &'a str,
    pub size_text: &'a str,
    pub size: u128,
    pub replicas: i32,
    pub expansion_supported: bool,
}

/// The claims to expand, and the report; there is none where the size of the
/// claim at the position cannot be read.
#[derive(Debug)]
pub struct StoragePlan {
    pub expand: Vec<String>,
    pub report: Result<StorageReport, usize>,
}

/// `StoragePlan` as values.
pub struct StoragePlanView {
    pub expand: Seq<Seq<char>>,
    pub report: Result<StorageView, int>,
}

impl View for StoragePlan {
    type V = StoragePlanView;

    open spec fn view(&self) -> StoragePlanView {
        StoragePlanView {
            expand: text::texts(self.expand@),
            report: match self.report {
                Ok(r) => Ok(r@),
                Err(i) => Err(i as int),
            },
        }
    }
}

/// How std's `Debug` shows a text.
pub uninterp spec fn debug_text(s: Seq<char>) -> Seq<char>;

/// Shows a text with std's `Debug`, in quotes and with escapes.
#[verifier::external_body]
fn shown(s: &str) -> (r: String)
    ensures
        r@ == debug_text(s@),
{
    format!("{:?}", s)
}

/// The ordinal of the broker that a claim belongs to.
pub open spec fn ordinal_of_claim(name: Seq<char>, cluster: Seq<char>) -> Option<nat> {
    match text::after_prefix(name, "data-"@ + cluster + "-"@) {
        Some(t) => text::parsed_unsigned(t, 10, u32::MAX as nat),
        None => None,
    }
}

/// The ordinal of the broker that a claim belongs to.
pub fn claim_ordinal(name: &str, cluster: &str) -> (r: Option<u32>)
    ensures
        match r {
            Some(n) => ordinal_of_claim(name@, cluster@) == Some(n as nat),
            None => ordinal_of_claim(name@, cluster@) is None,
        },
{
    let mut prefix = "data-".to_owned();
    prefix.append(cluster);
    prefix.append("-");
    match text::strip_prefix(name, prefix.as_str()) {
        Some(t) => match text::parse_decimal(t.as_str(), u32::MAX as u64) {
            Some(n) => Some(n as u32),
            None => None,
        },
        None => None,
    }
}

/// Whether no broker uses a claim any more.
pub open spec fn is_orphan(name: Seq<char>, d: StorageDemand<'_>) -> bool {
    match ordinal_of_claim(name, d.cluster@) {
        Some(n) => n as int >= d.replicas,
        None => false,
    }
}

/// The class of a claim, as it is shown.
pub open spec fn shown_class(class: Option<String>) -> Seq<char> {
    match class {
        Some(c) => "Some("@ + debug_text(c@) + ")"@,
        None => "None"@,
    }
}

/// The message for a claim of another storage class.
pub open spec fn class_fault(name: Seq<char>, class: Seq<char>, expected: Seq<char>) -> Seq<char> {
    "PVC "@ + name + " uses StorageClass "@ + class + ", expected "@ + expected
}

/// The message for a claim of another storage class, which is shown as given.
pub fn class_message(name: &str, class: &str, expected: &str) -> (r: String)
    ensures
        r@ == class_fault(name@, class@, expected@),
{
    let mut m = "PVC ".to_owned();
    m.append(name);
    m.append(" uses StorageClass ");
    m.append(class);
    m.append(", expected ");
    m.append(expected);
    m
}

/// The size that a claim asks for, as a text.
pub open spec fn request_text(claim: Claim) -> Seq<char> {
    match claim.request {
        Some(s) => s@,
        None => "0"@,
    }
}

/// Why a claim stops everything: its class, its size, or a class that cannot grow.
pub open spec fn claim_fault(c: MeasuredClaim, d: StorageDemand<'_>) -> Option<Seq<char>> {
    if text::opt_text(c.claim.storage_class) != Some(d.storage_class@) {
        Some(class_fault(c.claim.name@, shown_class(c.claim.storage_class), d.storage_class@))
    } else if c.request() is None {
        None
    } else if d.size < c.request()->0 {
        Some(
            "PVC "@ + c.claim.name@ + " requests "@ + request_text(c.claim)
                + "; storage shrink to "@ + d.size_text@ + " is forbidden"@,
        )
    } else if d.size > c.request()->0 && !d.expansion_supported {
        Some("StorageClass "@ + d.storage_class@ + " does not allow volume expansion"@)
    } else {
        None
    }
}

/// Whether a size of the claim cannot be read though it is needed.
pub open spec fn is_unreadable(c: MeasuredClaim, d: StorageDemand<'_>) -> bool {
    c.request() is None || (d.size == c.request()->0 && c.held() is None)
}

/// Whether a claim is to be expanded.
pub open spec fn needs_expansion(c: MeasuredClaim, d: StorageDemand<'_>) -> bool {
    d.size > c.request()->0
}

/// Whether a claim waits for its size.
pub open spec fn is_growing(c: MeasuredClaim, d: StorageDemand<'_>) -> bool {
    needs_expansion(c, d) || c.held()->0 < d.size
}

/// What was collected on the way.
pub struct Tally {
    pub orphaned: Seq<Seq<char>>,
    pub resizing: Seq<Seq<char>>,
    pub expand: Seq<Seq<char>>,
}

/// What is collected once a claim is passed.
pub open spec fn passed(t: Tally, c: MeasuredClaim, d: StorageDemand<'_>) -> Tally {
    Tally {
        orphaned: if is_orphan(c.claim.name@, d) {
            t.orphaned.push(c.claim.name@)
        } else {
            t.orphaned
        },
        resizing: if is_growing(c, d) {
            t.resizing.push(c.claim.name@)
        } else {
            t.resizing
        },
        expand: if needs_expansion(c, d) {
            t.expand.push(c.claim.name@)
        } else {
            t.expand
        },
    }
}

/// The report when every claim was passed.
pub open spec fn finished(t: Tally, d: StorageDemand<'_>) -> StorageView {
    StorageView {
        state: if t.resizing.len() == 0 {
            StorageState::Ready
        } else {
            StorageState::Resizing
        },
        message: if t.resizing.len() == 0 {
            "all PVCs satisfy requested capacity "@ + d.size_text@
        } else {
            "waiting for PVC expansion to "@ + d.size_text@ + ": "@ + text_list::joined(
                text_list::sorted_texts(t.resizing),
                ", "@,
            )
        },
        orphaned_pvcs: text_list::sorted_texts(t.orphaned),
    }
}

/// The plan from the claim `k` on.
pub open spec fn planned(
    d: StorageDemand<'_>,
    claims: Seq<MeasuredClaim>,
    k: int,
    t: Tally,
) -> StoragePlanView
    decreases claims.len() - k,
{
    if k < 0 || k >= claims.len() {
        StoragePlanView { expand: t.expand, report: Ok(finished(t, d)) }
    } else {
        let c = claims[k];
        match claim_fault(c, d) {
            Some(m) => StoragePlanView {
                expand: t.expand,
                report: Ok(
                    StorageView {
                        state: StorageState::Blocked,
                        message: m,
                        orphaned_pvcs: if is_orphan(c.claim.name@, d) {
                            t.orphaned.push(c.claim.name@)
                        } else {
                            t.orphaned
                        },
                    },
                ),
            },
            None => if is_unreadable(c, d) {
                StoragePlanView { expand: t.expand, report: Err(k) }
            } else {
                planned(d, claims, k + 1, passed(t, c, d))
            },
        }
    }
}

/// Nothing collected.
pub open spec fn no_tally() -> Tally {
    Tally { orphaned: Seq::empty(), resizing: Seq::empty(), expand: Seq::empty() }
}

fn show_class(class: &Option<String>) -> (r: String)
    ensures
        r@ == shown_class(*class),
{
    match class {
        Some(c) => {
            let mut r = "Some(".to_owned();
            r.append(shown(c.as_str()).as_str());
            r.append(")");
            r
        },
        None => "None".to_owned(),
    }
}

fn find_fault(c: &MeasuredClaim, d: &StorageDemand<'_>) -> (r: Option<String>)
    ensures
        text::opt_text(r) == claim_fault(*c, *d),
{
    if !text::opt_is(&c.claim.storage_class, d.storage_class) {
        let class = show_class(&c.claim.storage_class);
        return Some(class_message(c.claim.name.as_str(), class.as_str(), d.storage_class));
    }
    let requested: u128 = match &c.claim.request {
        None => 0,
        Some(_) => match c.requested {
            Some(n) => n,
            None => {
                return None;
            },
        },
    };
    if d.size < requested {
        let mut m = "PVC ".to_owned();
        m.append(c.claim.name.as_str());
        m.append(" requests ");
        match &c.claim.request {
            Some(s) => m.append(s.as_str()),
            None => m.append("0"),
        }
        m.append("; storage shrink to ");
        m.append(d.size_text);
        m.append(" is forbidden");
        return Some(m);
    }
    if d.size > requested && !d.expansion_supported {
        let mut m = "StorageClass ".to_owned();
        m.append(d.storage_class);
        m.append(" does not allow volume expansion");
        return Some(m);
    }
    None
}

fn orphaned(name: &str, d: &StorageDemand<'_>) -> (r: bool)
    ensures
        r == is_orphan(name@, *d),
{
    match claim_ordinal(name, d.cluster) {
        Some(n) => d.replicas <= 0 || n >= d.replicas as u32,
        None => false,
    }
}

fn push_name(v: &mut Vec<String>, name: &String)
    ensures
        text::texts(final(v)@) == text::texts(old(v)@).push(name@),
{
    v.push(name.clone());
    assert(text::texts(v@) =~= text::texts(old(v)@).push(name@));
}

/// The sizes that are given count a claim as nothing where it does not say.
fn size_or_zero(said: &Option<String>, size: Option<u128>) -> (r: Option<u128>)
    ensures
        r == if *said is None {
            Some(0u128)
        } else {
            size
        },
{
    match said {
        None => Some(0),
        Some(_) => size,
    }
}

/// Which claims to expand, and what to report. A claim of another class, one that
/// asks for more than is wanted, and one that cannot grow block everything.
pub fn reconcile(d: &StorageDemand<'_>, claims: &Vec<MeasuredClaim>) -> (r: StoragePlan)
    ensures
        r@ == planned(*d, claims@, 0, no_tally()),
{
    let mut left: Vec<String> = Vec::new();
    let mut resizing: Vec<String> = Vec::new();
    let mut expand: Vec<String> = Vec::new();
    let mut i: usize = 0;
    let ghost mut t = no_tally();
    assert(text::texts(left@) =~= t.orphaned);
    assert(text::texts(resizing@) =~= t.resizing);
    assert(text::texts(expand@) =~= t.expand);
    while i < claims.len()
        invariant
            i <= claims@.len(),
            t.orphaned == text::texts(left@),
            t.resizing == text::texts(resizing@),
            t.expand == text::texts(expand@),
            planned(*d, claims@, 0, no_tally()) == planned(*d, claims@, i as int, t),
        decreases claims@.len() - i,
    {
        let c = &claims[i];
        let ghost before = t;
        if orphaned(c.claim.name.as_str(), d) {
            push_name(&mut left, &c.claim.name);
        }
        if let Some(m) = find_fault(c, d) {
            return StoragePlan {
                expand,
                report: Ok(
                    StorageReport { state: StorageState::Blocked, message: m, orphaned_pvcs: left },
                ),
            };
        }
        let requested: u128 = match size_or_zero(&c.claim.request, c.requested) {
            Some(n) => n,
            None => {
                return StoragePlan { expand, report: Err(i) };
            },
        };
        if d.size > requested {
            push_name(&mut expand, &c.claim.name);
            push_name(&mut resizing, &c.claim.name);
        } else {
            let capacity: u128 = match size_or_zero(&c.claim.capacity, c.capacity) {
                Some(n) => n,
                None => {
                    return StoragePlan { expand, report: Err(i) };
                },
            };
            if capacity < d.size {
                push_name(&mut resizing, &c.claim.name);
            }
        }
        proof {
            t = passed(before, *c, *d);
        }
        i += 1;
    }
    assert(text::texts(resizing@).len() == resizing@.len());
    let names = text_list::sort_texts(&left);
    if resizing.len() == 0 {
        let mut m = "all PVCs satisfy requested capacity ".to_owned();
        m.append(d.size_text);
        StoragePlan {
            expand,
            report: Ok(
                StorageReport { state: StorageState::Ready, message: m, orphaned_pvcs: names },
            ),
        }
    } else {
        let mut m = "waiting for PVC expansion to ".to_owned();
        m.append(d.size_text);
        m.append(": ");
        let sorted = text_list::sort_texts(&resizing);
        m.append(text_list::join(&sorted, ", ").as_str());
        StoragePlan {
            expand,
            report: Ok(
                StorageReport { state: StorageState::Resizing, message: m, orphaned_pvcs: names },
            ),
        }
    }
}

proof fn lemma_planned_ready(
    d: StorageDemand<'_>,
    claims: Seq<MeasuredClaim>,
    k: int,
    t: Tally,
)
    requires
        0 <= k <= claims.len(),
        planned(d, claims, k, t).report is Ok,
        planned(d, claims, k, t).report->Ok_0.state == StorageState::Ready,
    ensures
        t.resizing.len() == 0,
        forall|i: int|
            k <= i < claims.len() ==> text::opt_text((#[trigger] claims[i]).claim.storage_class)
                == Some(d.storage_class@) && claims[i].request() == Some(d.size)
                && claims[i].held() is Some && claims[i].held()->0 >= d.size,
    decreases claims.len() - k,
{
    if k < claims.len() {
        lemma_planned_ready(d, claims, k + 1, passed(t, claims[k], d));
    }
}

/// Storage counts as ready only where every claim has the class and asks for
/// exactly the size that is wanted, and holds at least as much.
pub proof fn law_ready_storage_satisfies_every_claim(
    d: StorageDemand<'_>,
    claims: Seq<MeasuredClaim>,
)
    requires
        planned(d, claims, 0, no_tally()).report is Ok,
        planned(d, claims, 0, no_tally()).report->Ok_0.state == StorageState::Ready,
    ensures
        forall|i: int|
            0 <= i < claims.len() ==> text::opt_text((#[trigger] claims[i]).claim.storage_class)
                == Some(d.storage_class@) && claims[i].request() == Some(d.size)
                && claims[i].held() is Some && claims[i].held()->0 >= d.size,
{
    lemma_planned_ready(d, claims, 0, no_tally());
}

proof fn lemma_planned_expand(
    d: StorageDemand<'_>,
    claims: Seq<MeasuredClaim>,
    k: int,
    t: Tally,
    x: Seq<char>,
)
    requires
        0 <= k <= claims.len(),
        planned(d, claims, k, t).expand.contains(x),
    ensures
        t.expand.contains(x) || exists|i: int|
            k <= i < claims.len() && (#[trigger] claims[i]).claim.name@ == x
                && claims[i].request() is Some && claims[i].request()->0 < d.size
                && d.expansion_supported,
    decreases claims.len() - k,
{
    if k < claims.len() && claim_fault(claims[k], d) is None && !is_unreadable(claims[k], d) {
        let u = passed(t, claims[k], d);
        lemma_planned_expand(d, claims, k + 1, u, x);
        if u.expand.contains(x) && !t.expand.contains(x) {
            let w = choose|w: int| 0 <= w < u.expand.len() && u.expand[w] == x;
            if w < t.expand.len() {
                assert(t.expand[w] == x);
            }
            assert(claims[k].claim.name@ == x);
        } else if !t.expand.contains(x) {
            let i = choose|i: int|
                k + 1 <= i < claims.len() && (#[trigger] claims[i]).claim.name@ == x
                    && claims[i].request() is Some && claims[i].request()->0 < d.size
                    && d.expansion_supported;
            assert(claims[i].claim.name@ == x);
        }
    }
}

/// Only a claim that asks for less than is wanted is expanded, and only where its
/// class allows that: storage never shrinks.
pub proof fn law_claims_only_grow(
    d: StorageDemand<'_>,
    claims: Seq<MeasuredClaim>,
    x: Seq<char>,
)
    requires
        planned(d, claims, 0, no_tally()).expand.contains(x),
    ensures
        exists|i: int|
            0 <= i < claims.len() && (#[trigger] claims[i]).claim.name@ == x
                && claims[i].request() is Some && claims[i].request()->0 < d.size
                && d.expansion_supported,
{
    lemma_planned_expand(d, claims, 0, no_tally(), x);
}

/// The size in the claim template of a stateful set, or another where it has none.
pub fn claim_template_size(set: Option<&StatefulSet>, fallback: &str) -> (r: String)
    ensures
        r@ == (if set is Some && set->0.claim_templates@.len() > 0
            && set->0.claim_templates@[0].request is Some {
            set->0.claim_templates@[0].request->0@
        } else {
            fallback@
        }),
{
    match set {
        Some(s) => if s.claim_templates.len() > 0 {
            match &s.claim_templates[0].request {
                Some(size) => size.clone(),
                None => fallback.to_owned(),
            }
        } else {
            fallback.to_owned()
        },
        None => fallback.to_owned(),
    }
}

// Quantities.

/// Whether a character stands in the number of a quantity.
pub open spec fn is_number_char(c: char) -> bool {
    ('0' <= c && c <= '9') || c == '.'
}

/// How many characters of a quantity its number takes, from `k` on.
pub open spec fn number_end(s: Seq<char>, k: int) -> int
    decreases s.len() - k,
{
    if k < 0 || k >= s.len() || !is_number_char(s[k]) {
        k
    } else {
        number_end(s, k + 1)
    }
}

/// The number of a quantity and its unit, as texts.
pub fn quantity_parts(value: &str) -> (r: (String, String))
    ensures
        r.0@ == value@.take(number_end(value@, 0)),
        r.1@ == value@.skip(number_end(value@, 0)),
        0 <= number_end(value@, 0) <= value@.len(),
{
    let v = text::chars_of(value);
    let mut i: usize = 0;
    while i < v.len() && (v[i] == '.' || ('0' <= v[i] && v[i] <= '9'))
        invariant
            i <= v@.len(),
            v@ == value@,
            number_end(value@, 0) == number_end(value@, i as int),
        decreases v@.len() - i,
    {
        i += 1;
    }
    let number = text::text_of(v.as_slice(), 0, i);
    let unit = text::text_of(v.as_slice(), i, v.len());
    assert(number@ =~= value@.take(i as int));
    assert(unit@ =~= value@.skip(i as int));
    (number, unit)
}

/// What a unit of a quantity multiplies by.
pub open spec fn multiplier(unit: Seq<char>) -> Option<u128> {
    if unit == ""@ {
        Some(1)
    } else if unit == "K"@ {
        Some(1000)
    } else if unit == "M"@ {
        Some(1000000)
    } else if unit == "G"@ {
        Some(1000000000)
    } else if unit == "T"@ {
        Some(1000000000000)
    } else if unit == "P"@ {
        Some(1000000000000000)
    } else if unit == "E"@ {
        Some(1000000000000000000)
    } else if unit == "Ki"@ {
        Some(1024)
    } else if unit == "Mi"@ {
        Some(1048576)
    } else if unit == "Gi"@ {
        Some(1073741824)
    } else if unit == "Ti"@ {
        Some(1099511627776)
    } else if unit == "Pi"@ {
        Some(1125899906842624)
    } else if unit == "Ei"@ {
        Some(1152921504606846976)
    } else {
        None
    }
}

/// What a unit of a quantity multiplies by; there is nothing for an unknown unit.
pub fn unit_multiplier(unit: &str) -> (r: Option<u128>)
    ensures
        r == multiplier(unit@),
{
    if text::str_eq(unit, "") {
        Some(1)
    } else if text::str_eq(unit, "K") {
        Some(1000)
    } else if text::str_eq(unit, "M") {
        Some(1000000)
    } else if text::str_eq(unit, "G") {
        Some(1000000000)
    } else if text::str_eq(unit, "T") {
        Some(1000000000000)
    } else if text::str_eq(unit, "P") {
        Some(1000000000000000)
    } else if text::str_eq(unit, "E") {
        Some(1000000000000000000)
    } else if text::str_eq(unit, "Ki") {
        Some(1024)
    } else if text::str_eq(unit, "Mi") {
        Some(1048576)
    } else if text::str_eq(unit, "Gi") {
        Some(1073741824)
    } else if text::str_eq(unit, "Ti") {
        Some(1099511627776)
    } else if text::str_eq(unit, "Pi") {
        Some(1125899906842624)
    } else if text::str_eq(unit, "Ei") {
        Some(1152921504606846976)
    } else {
        None
    }
}

/// The unit of a CPU quantity.
#[derive(Clone, Copy, Debug, PartialEq, Eq, Structural)]
pub enum CpuUnit {
    Cores,
    Millis,
    Micros,
    Nanos,
}

/// The number of a CPU quantity, as a text, and its unit.
pub open spec fn cpu_reading(value: Seq<char>) -> (Seq<char>, CpuUnit) {
    let v = text::trimmed(value);
    if text::before_suffix(v, "m"@) is Some {
        (text::before_suffix(v, "m"@)->0, CpuUnit::Millis)
    } else if text::before_suffix(v, "u"@) is Some {
        (text::before_suffix(v, "u"@)->0, CpuUnit::Micros)
    } else if text::before_suffix(v, "n"@) is Some {
        (text::before_suffix(v, "n"@)->0, CpuUnit::Nanos)
    } else {
        (v, CpuUnit::Cores)
    }
}

/// The number of a CPU quantity, as a text, and its unit.
pub fn cpu_parts(value: &str) -> (r: (String, CpuUnit))
    ensures
        (r.0@, r.1) == cpu_reading(value@),
{
    let v = text::trim(value);
    if let Some(n) = text::strip_suffix(v.as_str(), "m") {
        return (n, CpuUnit::Millis);
    }
    if let Some(n) = text::strip_suffix(v.as_str(), "u") {
        return (n, CpuUnit::Micros);
    }
    if let Some(n) = text::strip_suffix(v.as_str(), "n") {
        return (n, CpuUnit::Nanos);
    }
    (v, CpuUnit::Cores)
}

proof fn lemma_planned_orphans(
    d: StorageDemand<'_>,
    claims: Seq<MeasuredClaim>,
    k: int,
    t: Tally,
    x: Seq<char>,
)
    requires
        0 <= k <= claims.len(),
        planned(d, claims, k, t).report is Ok,
        planned(d, claims, k, t).report->Ok_0.state != StorageState::Blocked,
    ensures
        planned(d, claims, k, t).report->Ok_0.orphaned_pvcs.contains(x) <==> t.orphaned.contains(x)
            || exists|i: int|
            k <= i < claims.len() && (#[trigger] claims[i]).claim.name@ == x && is_orphan(x, d),
        (planned(d, claims, k, t).report->Ok_0.state == StorageState::Resizing) <==> t.resizing.len()
            > 0 || exists|i: int|
            k <= i < claims.len() && is_growing(#[trigger] claims[i], d),
        forall|i: int|
            k <= i < claims.len() ==> claim_fault(#[trigger] claims[i], d) is None
                && !is_unreadable(claims[i], d),
    decreases claims.len() - k,
{
    let r = planned(d, claims, k, t);
    if k >= claims.len() {
        let s = text_list::sorted_texts(t.orphaned);
        text_list::lemma_sorted_texts(t.orphaned);
        broadcast use vstd::seq_lib::group_to_multiset_ensures;

        assert(s.contains(x) <==> s.to_multiset().count(x) > 0);
        assert(t.orphaned.contains(x) <==> t.orphaned.to_multiset().count(x) > 0);
    } else {
        let c = claims[k];
        let n = passed(t, c, d);
        lemma_planned_orphans(d, claims, k + 1, n, x);
        if t.orphaned.contains(x) {
            let w = t.orphaned.index_of(x);
            assert(n.orphaned[w] == x);
        }
        if is_orphan(c.claim.name@, d) {
            assert(n.orphaned[n.orphaned.len() - 1] == c.claim.name@);
        }
        if n.orphaned.contains(x) {
            let w = n.orphaned.index_of(x);
            if w < t.orphaned.len() {
                assert(t.orphaned[w] == x);
            }
        }
        if exists|i: int|
            k <= i < claims.len() && (#[trigger] claims[i]).claim.name@ == x && is_orphan(x, d) {
            let i = choose|i: int|
                k <= i < claims.len() && (#[trigger] claims[i]).claim.name@ == x && is_orphan(x, d);
            if i > k {
                assert(claims[i].claim.name@ == x);
            }
        }
        if exists|i: int| k <= i < claims.len() && is_growing(#[trigger] claims[i], d) {
            let i = choose|i: int| k <= i < claims.len() && is_growing(#[trigger] claims[i], d);
            if i > k {
                assert(is_growing(claims[i], d));
            }
        }
    }
}

/// Claims of brokers beyond those that are wanted are told as orphans, and no others, wherever
/// nothing blocks.
pub proof fn law_orphans_are_the_claims_beyond_the_brokers(
    d: StorageDemand<'_>,
    claims: Seq<MeasuredClaim>,
    x: Seq<char>,
)
    requires
        planned(d, claims, 0, no_tally()).report is Ok,
        planned(d, claims, 0, no_tally()).report->Ok_0.state != StorageState::Blocked,
    ensures
        planned(d, claims, 0, no_tally()).report->Ok_0.orphaned_pvcs.contains(x) <==> exists|i: int|
            0 <= i < claims.len() && (#[trigger] claims[i]).claim.name@ == x && ordinal_of_claim(
                x,
                d.cluster@,
            ) is Some && ordinal_of_claim(x, d.cluster@)->0 >= d.replicas,
{
    lemma_planned_orphans(d, claims, 0, no_tally(), x);
    if planned(d, claims, 0, no_tally()).report->Ok_0.orphaned_pvcs.contains(x) {
        let i = choose|i: int|
            0 <= i < claims.len() && (#[trigger] claims[i]).claim.name@ == x && is_orphan(x, d);
        assert(claims[i].claim.name@ == x);
    }
    if exists|i: int|
        0 <= i < claims.len() && (#[trigger] claims[i]).claim.name@ == x && ordinal_of_claim(
            x,
            d.cluster@,
        ) is Some && ordinal_of_claim(x, d.cluster@)->0 >= d.replicas {
        let i = choose|i: int|
            0 <= i < claims.len() && (#[trigger] claims[i]).claim.name@ == x && ordinal_of_claim(
                x,
                d.cluster@,
            ) is Some && ordinal_of_claim(x, d.cluster@)->0 >= d.replicas;
        assert(is_orphan(claims[i].claim.name@, d));
    }
}

/// Volumes that are neither blocked nor unreadable are being resized exactly where one of them
/// asks for less than is wanted or has less.
pub proof fn law_volumes_are_resized_until_large_enough(
    d: StorageDemand<'_>,
    claims: Seq<MeasuredClaim>,
)
    requires
        planned(d, claims, 0, no_tally()).report is Ok,
        planned(d, claims, 0, no_tally()).report->Ok_0.state != StorageState::Blocked,
    ensures
        (planned(d, claims, 0, no_tally()).report->Ok_0.state == StorageState::Resizing)
            <==> exists|i: int|
            0 <= i < claims.len() && ((#[trigger] claims[i]).request()->0 < d.size
                || claims[i].held()->0 < d.size),
{
    lemma_planned_orphans(d, claims, 0, no_tally(), Seq::empty());
    if exists|i: int|
        0 <= i < claims.len() && ((#[trigger] claims[i]).request()->0 < d.size
            || claims[i].held()->0 < d.size) {
        let i = choose|i: int|
            0 <= i < claims.len() && ((#[trigger] claims[i]).request()->0 < d.size
                || claims[i].held()->0 < d.size);
        assert(is_growing(claims[i], d));
    }
    if exists|i: int| 0 <= i < claims.len() && is_growing(#[trigger] claims[i], d) {
        let i = choose|i: int| 0 <= i < claims.len() && is_growing(#[trigger] claims[i], d);
        assert(claims[i].request()->0 < d.size || claims[i].held()->0 < d.size);
    }
}

/// A claim is in the way exactly where it is of another class, asks for more than is wanted, or
/// asks for less and its class cannot grow.
pub proof fn law_claims_block_for_a_reason(c: MeasuredClaim, d: StorageDemand<'_>)
    ensures
        claim_fault(c, d) is Some <==> text::opt_text(c.claim.storage_class) != Some(
            d.storage_class@,
        ) || (c.request() is Some && (c.request()->0 > d.size || (c.request()->0 < d.size
            && !d.expansion_supported))),
{
}

proof fn lemma_planned_blocked(
    d: StorageDemand<'_>,
    claims: Seq<MeasuredClaim>,
    k: int,
    t: Tally,
    i: int,
)
    requires
        0 <= k <= i < claims.len(),
        claim_fault(claims[i], d) is Some,
        forall|j: int|
            k <= j < i ==> claim_fault(#[trigger] claims[j], d) is None && !is_unreadable(
                claims[j],
                d,
            ),
    ensures
        planned(d, claims, k, t).report is Ok,
        planned(d, claims, k, t).report->Ok_0.state == StorageState::Blocked,
        planned(d, claims, k, t).report->Ok_0.message == claim_fault(claims[i], d)->0,
    decreases i - k,
{
    if k < i {
        assert(claim_fault(claims[k], d) is None && !is_unreadable(claims[k], d));
        lemma_planned_blocked(d, claims, k + 1, passed(t, claims[k], d), i);
    }
}

/// The first claim that is in the way blocks, and is told.
pub proof fn law_the_first_claim_in_the_way_blocks(
    d: StorageDemand<'_>,
    claims: Seq<MeasuredClaim>,
    i: int,
)
    requires
        0 <= i < claims.len(),
        claim_fault(claims[i], d) is Some,
        forall|j: int|
            0 <= j < i ==> claim_fault(#[trigger] claims[j], d) is None && !is_unreadable(
                claims[j],
                d,
            ),
    ensures
        planned(d, claims, 0, no_tally()).report is Ok,
        planned(d, claims, 0, no_tally()).report->Ok_0.state == StorageState::Blocked,
        planned(d, claims, 0, no_tally()).report->Ok_0.message == claim_fault(claims[i], d)->0,
{
    lemma_planned_blocked(d, claims, 0, no_tally(), i);
}

/// The units of a size: thousands, and powers of 1024 where an `i` follows.
pub proof fn law_units_are_powers(unit: Seq<char>)
    ensures
        multiplier("K"@) == Some(1000u128) && multiplier("Ki"@) == Some(1024u128),
        multiplier(""@) == Some(1u128),
        multiplier("M"@)->0 == 1000 * multiplier("K"@)->0,
        multiplier("G"@)->0 == 1000 * multiplier("M"@)->0,
        multiplier("T"@)->0 == 1000 * multiplier("G"@)->0,
        multiplier("P"@)->0 == 1000 * multiplier("T"@)->0,
        multiplier("E"@)->0 == 1000 * multiplier("P"@)->0,
        multiplier("Mi"@)->0 == 1024 * multiplier("Ki"@)->0,
        multiplier("Gi"@)->0 == 1024 * multiplier("Mi"@)->0,
        multiplier("Ti"@)->0 == 1024 * multiplier("Gi"@)->0,
        multiplier("Pi"@)->0 == 1024 * multiplier("Ti"@)->0,
        multiplier("Ei"@)->0 == 1024 * multiplier("Pi"@)->0,
        unit.len() > 2 ==> multiplier(unit) is None,
{
    reveal_strlit("");
    reveal_strlit("K");
    reveal_strlit("M");
    reveal_strlit("G");
    reveal_strlit("T");
    reveal_strlit("P");
    reveal_strlit("E");
    reveal_strlit("Ki");
    reveal_strlit("Mi");
    reveal_strlit("Gi");
    reveal_strlit("Ti");
    reveal_strlit("Pi");
    reveal_strlit("Ei");
    assert(""@.len() == 0 && "K"@.len() == 1 && "M"@.len() == 1 && "G"@.len() == 1 && "T"@.len()
        == 1 && "P"@.len() == 1 && "E"@.len() == 1);
    assert("Ki"@.len() == 2 && "Mi"@.len() == 2 && "Gi"@.len() == 2 && "Ti"@.len() == 2
        && "Pi"@.len() == 2 && "Ei"@.len() == 2);
    assert("K"@[0] == 'K' && "M"@[0] == 'M' && "G"@[0] == 'G' && "T"@[0] == 'T' && "P"@[0] == 'P'
        && "E"@[0] == 'E');
    assert("Ki"@[0] == 'K' && "Mi"@[0] == 'M' && "Gi"@[0] == 'G' && "Ti"@[0] == 'T' && "Pi"@[0]
        == 'P' && "Ei"@[0] == 'E');
}

/// The size of new claims is that of the set that runs, where it has one.
pub proof fn law_new_claims_are_as_large_as_the_others(
    set: Option<&StatefulSet>,
    fallback: &str,
    r: String,
)
    requires
        call_ensures(claim_template_size, (set, fallback), r),
    ensures
        set is None ==> r@ == fallback@,
        set is Some && set->0.claim_templates@.len() > 0 && set->0.claim_templates@[0].request
            is Some ==> r@ == set->0.claim_templates@[0].request->0@,
{
}

/// The number and the unit of a CPU quantity make the quantity again, and whole
/// cores are those that end in no unit.
pub proof fn law_cpu_quantities_end_in_their_unit(value: &str, r: (String, CpuUnit))
    requires
        call_ensures(cpu_parts, (value,), r),
    ensures
        r.1 is Millis ==> r.0@ + "m"@ == text::trimmed(value@),
        r.1 is Micros ==> r.0@ + "u"@ == text::trimmed(value@),
        r.1 is Nanos ==> r.0@ + "n"@ == text::trimmed(value@),
        r.1 is Cores ==> r.0@ == text::trimmed(value@) && (r.0@.len() > 0 ==> r.0@.last() != 'm'
            && r.0@.last() != 'u' && r.0@.last() != 'n'),
{
    reveal_strlit("m");
    reveal_strlit("u");
    reveal_strlit("n");
    let v = text::trimmed(value@);
    if r.1 is Millis {
        assert(r.0@ + "m"@ =~= v);
    } else if r.1 is Micros {
        assert(r.0@ + "u"@ =~= v);
    } else if r.1 is Nanos {
        assert(r.0@ + "n"@ =~= v);
    } else if v.len() > 0 {
        let t = v.skip(v.len() - 1);
        assert(t.len() == 1 && t[0] == v.last());
        if v.last() == 'm' {
            assert(t =~= "m"@);
        }
        if v.last() == 'u' {
            assert(t =~= "u"@);
        }
        if v.last() == 'n' {
            assert(t =~= "n"@);
        }
    }
}

} // verus!
