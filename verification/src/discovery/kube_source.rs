//! Where the brokers are found, and how they are asked.
use crate::discovery::model::{Address, BrokerEndpoint, EndpointKey};
use crate::ordered::{OrderedKey, SortedSet};
use crate::text;
use vstd::prelude::*;
use vstd::string::*;

verus! {

/// The largest head of a registry, in bytes.
pub const MAX_HEAD_BYTES: usize = 65536;

/// The largest registry, in bytes.
pub const MAX_REGISTRY_BYTES: usize = 16777216;

/// How the directory is kept up to date. Times are in nanoseconds.
#[derive(Clone, Debug)]
pub struct RefreshConfig {
    pub namespace: String,
    pub service_name: String,
    pub fallback_http_port: u16,
    pub poll_interval: u128,
    pub endpoint_slice_timeout: u128,
    pub stale_after: u128,
    pub registry_token_file: Option<String>,
    pub max_parallel_polls: usize,
}

/// A port of an endpoint slice.
#[derive(Debug)]
pub struct SlicePort {
    pub name: Option<String>,
    pub port: Option<i32>,
}

/// An endpoint of an endpoint slice: its addresses, where they can be read, and
/// whether it goes away.
#[derive(Debug)]
pub struct SliceEndpoint {
    pub addresses: Vec<Option<Address>>,
    pub terminating: Option<bool>,
}

/// An endpoint slice.
#[derive(Debug)]
pub struct EndpointSlice {
    pub ports: Vec<SlicePort>,
    pub endpoints: Vec<SliceEndpoint>,
}

/// The first port named `http`, from `k` on.
pub open spec fn first_http(ports: Seq<SlicePort>, k: int) -> Option<int>
    decreases ports.len() - k,
{
    if k < 0 || k >= ports.len() {
        None
    } else if text::opt_text(ports[k].name) == Some("http"@) {
        Some(k)
    } else {
        first_http(ports, k + 1)
    }
}

/// The port of a slice: the one named `http`, else its first, where it is a port;
/// else another.
pub open spec fn slice_port(ports: Seq<SlicePort>, fallback: u16) -> u16 {
    let chosen = match first_http(ports, 0) {
        Some(i) => ports[i].port,
        None => if ports.len() > 0 {
            ports[0].port
        } else {
            None
        },
    };
    match chosen {
        Some(n) => if 0 <= n <= 65535 {
            n as u16
        } else {
            fallback
        },
        None => fallback,
    }
}

fn port_of(ports: &Vec<SlicePort>, fallback: u16) -> (r: u16)
    ensures
        r == slice_port(ports@, fallback),
{
    if ports.len() == 0 {
        return fallback;
    }
    let mut at: usize = 0;
    let mut i: usize = 0;
    let mut found = false;
    while i < ports.len() && !found
        invariant
            i <= ports@.len(),
            ports@.len() > 0,
            at < ports@.len(),
            found ==> first_http(ports@, 0) == Some(at as int),
            !found ==> at == 0 && first_http(ports@, 0) == first_http(ports@, i as int),
        decreases ports@.len() - i,
    {
        if text::opt_is(&ports[i].name, "http") {
            at = i;
            found = true;
        }
        i += 1;
    }
    match ports[at].port {
        Some(n) => if 0 <= n && n <= 65535 {
            n as u16
        } else {
            fallback
        },
        None => fallback,
    }
}

/// Whether an endpoint is that of an address with a port, written as the address is.
pub open spec fn is_at(address: Address, port: u16, k: EndpointKey) -> bool {
    k == (EndpointKey { v6: address.v6, bits: address.bits, port, text: address.text@ })
}

/// Whether an endpoint with a port has an address.
pub open spec fn has_address(e: SliceEndpoint, port: u16, k: EndpointKey) -> bool {
    e.terminating != Some(true) && exists|a: int|
        0 <= a < e.addresses@.len() && (#[trigger] e.addresses@[a]) is Some && is_at(
            e.addresses@[a]->0,
            port,
            k,
        )
}

/// Whether a slice has an endpoint.
pub open spec fn in_slice(s: EndpointSlice, fallback: u16, k: EndpointKey) -> bool {
    exists|i: int|
        0 <= i < s.endpoints@.len() && has_address(
            #[trigger] s.endpoints@[i],
            slice_port(s.ports@, fallback),
            k,
        )
}

/// The endpoints of some slices: every address that can be read, of every
/// endpoint that does not go away, ready or not.
pub open spec fn endpoint_set(slices: Seq<EndpointSlice>, fallback: u16) -> Set<EndpointKey> {
    Set::new(
        |k: EndpointKey|
            exists|i: int| 0 <= i < slices.len() && in_slice(#[trigger] slices[i], fallback, k),
    )
}

spec fn in_first(e: SliceEndpoint, n: int, port: u16, k: EndpointKey) -> bool {
    exists|a: int|
        0 <= a < n && (#[trigger] e.addresses@[a]) is Some && is_at(e.addresses@[a]->0, port, k)
}

fn add_addresses(set: &mut SortedSet<BrokerEndpoint>, e: &SliceEndpoint, port: u16)
    requires
        old(set).wf(),
    ensures
        final(set).wf(),
        forall|k: EndpointKey| #[trigger]
            final(set)@.contains(k) <==> old(set)@.contains(k) || has_address(*e, port, k),
{
    if let Some(true) = e.terminating {
        return ;
    }
    let mut a: usize = 0;
    while a < e.addresses.len()
        invariant
            a <= e.addresses@.len(),
            set.wf(),
            forall|k: EndpointKey| #[trigger]
                set@.contains(k) <==> old(set)@.contains(k) || in_first(*e, a as int, port, k),
        decreases e.addresses@.len() - a,
    {
        let ghost before = set@;
        if let Some(address) = &e.addresses[a] {
            let endpoint = BrokerEndpoint {
                address: Address {
                    v6: address.v6,
                    bits: address.bits,
                    text: address.text.clone(),
                },
                http_port: port,
            };
            set.insert(endpoint);
        }
        proof {
            assert forall|k: EndpointKey| #[trigger] set@.contains(k) <==> old(set)@.contains(k)
                || in_first(*e, a + 1, port, k) by {
                assert(before.contains(k) <==> old(set)@.contains(k) || in_first(
                    *e,
                    a as int,
                    port,
                    k,
                ));
                let here = e.addresses@[a as int];
                assert(in_first(*e, a + 1, port, k) <==> in_first(*e, a as int, port, k) || (
                here is Some && is_at(here->0, port, k)));
            }
        }
        a += 1;
    }
    proof {
        assert forall|k: EndpointKey| #[trigger] set@.contains(k) <==> old(set)@.contains(k)
            || has_address(*e, port, k) by {
            assert(in_first(*e, e.addresses@.len() as int, port, k) <==> has_address(
                *e,
                port,
                k,
            ));
        }
    }
}

spec fn in_endpoints(s: EndpointSlice, n: int, port: u16, k: EndpointKey) -> bool {
    exists|i: int| 0 <= i < n && has_address(#[trigger] s.endpoints@[i], port, k)
}

fn add_slice(set: &mut SortedSet<BrokerEndpoint>, s: &EndpointSlice, fallback: u16)
    requires
        old(set).wf(),
    ensures
        final(set).wf(),
        forall|k: EndpointKey| #[trigger]
            final(set)@.contains(k) <==> old(set)@.contains(k) || in_slice(*s, fallback, k),
{
    let port = port_of(&s.ports, fallback);
    let mut i: usize = 0;
    while i < s.endpoints.len()
        invariant
            i <= s.endpoints@.len(),
            port == slice_port(s.ports@, fallback),
            set.wf(),
            forall|k: EndpointKey| #[trigger]
                set@.contains(k) <==> old(set)@.contains(k) || in_endpoints(
                    *s,
                    i as int,
                    port,
                    k,
                ),
        decreases s.endpoints@.len() - i,
    {
        let ghost before = set@;
        add_addresses(set, &s.endpoints[i], port);
        proof {
            assert forall|k: EndpointKey| #[trigger] set@.contains(k) <==> old(set)@.contains(k)
                || in_endpoints(*s, i + 1, port, k) by {
                assert(before.contains(k) <==> old(set)@.contains(k) || in_endpoints(
                    *s,
                    i as int,
                    port,
                    k,
                ));
                assert(in_endpoints(*s, i + 1, port, k) <==> in_endpoints(*s, i as int, port, k)
                    || has_address(s.endpoints@[i as int], port, k));
            }
        }
        i += 1;
    }
    proof {
        assert forall|k: EndpointKey| #[trigger] set@.contains(k) <==> old(set)@.contains(k)
            || in_slice(*s, fallback, k) by {
            assert(in_endpoints(*s, s.endpoints@.len() as int, port, k) <==> in_slice(
                *s,
                fallback,
                k,
            ));
        }
    }
}

spec fn in_slices(slices: Seq<EndpointSlice>, n: int, fallback: u16, k: EndpointKey) -> bool {
    exists|i: int| 0 <= i < n && in_slice(#[trigger] slices[i], fallback, k)
}

/// The endpoints of some slices.
pub fn endpoints_from_slices(slices: &Vec<EndpointSlice>, fallback_port: u16) -> (r: SortedSet<
    BrokerEndpoint,
>)
    ensures
        r.wf(),
        r@ == endpoint_set(slices@, fallback_port),
{
    let mut set: SortedSet<BrokerEndpoint> = SortedSet::new();
    let mut i: usize = 0;
    while i < slices.len()
        invariant
            i <= slices@.len(),
            set.wf(),
            forall|k: EndpointKey| #[trigger]
                set@.contains(k) <==> in_slices(slices@, i as int, fallback_port, k),
        decreases slices@.len() - i,
    {
        let ghost before = set@;
        add_slice(&mut set, &slices[i], fallback_port);
        proof {
            assert forall|k: EndpointKey| #[trigger] set@.contains(k) <==> in_slices(
                slices@,
                i + 1,
                fallback_port,
                k,
            ) by {
                assert(before.contains(k) <==> in_slices(slices@, i as int, fallback_port, k));
                assert(in_slices(slices@, i + 1, fallback_port, k) <==> in_slices(
                    slices@,
                    i as int,
                    fallback_port,
                    k,
                ) || in_slice(slices@[i as int], fallback_port, k));
            }
        }
        i += 1;
    }
    proof {
        assert forall|k: EndpointKey| set@.contains(k) <==> endpoint_set(
            slices@,
            fallback_port,
        ).contains(k) by {
            assert(set@.contains(k) <==> in_slices(
                slices@,
                slices@.len() as int,
                fallback_port,
                k,
            ));
        }
        assert(set@ =~= endpoint_set(slices@, fallback_port));
    }
    set
}

/// The token in the content of a token file, trimmed; an empty one is refused.
pub fn load_registry_token(content: &str) -> (r: Option<String>)
    ensures
        match r {
            Some(t) => !text::is_blank(content@) && t@ == text::trimmed(content@),
            None => text::is_blank(content@),
        },
{
    if text::blank(content) {
        None
    } else {
        Some(text::trim(content))
    }
}

/// Whether a refresh counts as a success of the sources: there is nobody to ask,
/// or somebody has answered.
pub fn refresh_succeeded(endpoints_empty: bool, successful_polls: usize) -> (r: bool)
    ensures
        r == (endpoints_empty || successful_polls > 0),
{
    endpoints_empty || successful_polls > 0
}

/// Whether an answer stays within its bound with one more chunk.
pub fn within_bound(have: usize, chunk: usize, maximum: usize) -> (r: bool)
    ensures
        r == (have + chunk <= maximum || (have + chunk > usize::MAX && maximum == usize::MAX)),
{
    if chunk > usize::MAX - have {
        maximum == usize::MAX
    } else {
        have + chunk <= maximum
    }
}

/// An address is polled exactly where some slice has it at an endpoint that is not on its way
/// out, at the port of that slice.
pub proof fn law_addresses_are_polled_unless_on_their_way_out(
    slices: Seq<EndpointSlice>,
    fallback: u16,
    s: int,
    i: int,
    a: int,
)
    requires
        0 <= s < slices.len(),
        0 <= i < slices[s].endpoints@.len(),
        0 <= a < slices[s].endpoints@[i].addresses@.len(),
        slices[s].endpoints@[i].addresses@[a] is Some,
        slices[s].endpoints@[i].terminating != Some(true),
    ensures
        ({
            let x = slices[s].endpoints@[i].addresses@[a]->0;
            endpoint_set(slices, fallback).contains(
                EndpointKey {
                    v6: x.v6,
                    bits: x.bits,
                    port: slice_port(slices[s].ports@, fallback),
                    text: x.text@,
                },
            )
        }),
{
    let e = slices[s].endpoints@[i];
    let x = e.addresses@[a]->0;
    let port = slice_port(slices[s].ports@, fallback);
    let k = EndpointKey { v6: x.v6, bits: x.bits, port, text: x.text@ };
    assert(is_at(e.addresses@[a]->0, port, k));
    assert(has_address(slices[s].endpoints@[i], port, k));
    assert(in_slice(slices[s], fallback, k));
}

/// What is polled stands in a slice, at an endpoint that is not on its way out.
pub proof fn law_polled_addresses_stand_in_a_slice(
    slices: Seq<EndpointSlice>,
    fallback: u16,
    k: EndpointKey,
)
    requires
        endpoint_set(slices, fallback).contains(k),
    ensures
        exists|s: int, i: int, a: int|
            0 <= s < slices.len() && 0 <= i < slices[s].endpoints@.len() && 0 <= a
                < slices[s].endpoints@[i].addresses@.len()
                && #[trigger] slices[s].endpoints@[i].addresses@[a] is Some
                && slices[s].endpoints@[i].terminating != Some(true)
                && slices[s].endpoints@[i].addresses@[a]->0.text@ == k.text
                && slices[s].endpoints@[i].addresses@[a]->0.bits == k.bits
                && slices[s].endpoints@[i].addresses@[a]->0.v6 == k.v6 && k.port == slice_port(
                slices[s].ports@,
                fallback,
            ),
{
    let s = choose|s: int| 0 <= s < slices.len() && in_slice(#[trigger] slices[s], fallback, k);
    let port = slice_port(slices[s].ports@, fallback);
    let i = choose|i: int|
        0 <= i < slices[s].endpoints@.len() && has_address(
            #[trigger] slices[s].endpoints@[i],
            port,
            k,
        );
    let e = slices[s].endpoints@[i];
    let a = choose|a: int|
        0 <= a < e.addresses@.len() && (#[trigger] e.addresses@[a]) is Some && is_at(
            e.addresses@[a]->0,
            port,
            k,
        );
    assert(slices[s].endpoints@[i].addresses@[a] is Some);
}

proof fn lemma_first_http(ports: Seq<SlicePort>, k: int)
    requires
        k >= 0,
    ensures
        first_http(ports, k) matches Some(i) ==> k <= i < ports.len() && text::opt_text(
            ports[i].name,
        ) == Some("http"@),
        first_http(ports, k) is None ==> forall|i: int|
            k <= i < ports.len() ==> text::opt_text((#[trigger] ports[i]).name) != Some("http"@),
    decreases ports.len() - k,
{
    if k < ports.len() && text::opt_text(ports[k].name) != Some("http"@) {
        lemma_first_http(ports, k + 1);
    }
}

/// The port of a slice is that of its first port named `http`, or of its first where none is; one
/// that is not a port gives way to the usual one.
pub proof fn law_the_port_named_http_is_polled(ports: Seq<SlicePort>, fallback: u16)
    ensures
        ({
            let r = slice_port(ports, fallback);
            &&& r == fallback || exists|i: int|
                0 <= i < ports.len() && (#[trigger] ports[i]).port is Some && ports[i].port->0 == r
                    && (text::opt_text(ports[i].name) == Some("http"@) || (i == 0 && forall|j: int|
                    0 <= j < ports.len() ==> text::opt_text((#[trigger] ports[j]).name) != Some(
                        "http"@,
                    )))
            &&& ports.len() > 0 && text::opt_text(ports[0].name) == Some("http"@) && ports[0].port
                is Some && 0 <= ports[0].port->0 <= 65535 ==> r == ports[0].port->0
            &&& ports.len() == 1 && ports[0].port is Some && 0 <= ports[0].port->0 <= 65535 ==> r
                == ports[0].port->0
            &&& ports.len() == 0 ==> r == fallback
        }),
{
    lemma_first_http(ports, 0);
    if first_http(ports, 0) is Some {
        let i = first_http(ports, 0)->0;
        assert(ports[i].port is Some || ports[i].port is None);
    } else if ports.len() > 0 {
        assert(ports[0].port is Some || ports[0].port is None);
    }
}

/// Reading the brokers anew has succeeded where one answered, or where there is none.
pub proof fn law_refreshes_succeed_with_an_answer(empty: bool, polls: usize, r: bool)
    requires
        call_ensures(refresh_succeeded, (empty, polls), r),
    ensures
        r <==> empty || polls >= 1,
{
}

} // verus!
