//! The metrics of the proxy.
use crate::text;
use vstd::prelude::*;
use vstd::string::*;

verus! {

/// What is counted.
#[derive(Debug)]
pub struct ProxyMetrics {
    /// Tunnels that were closed on account of their age or of their broker.
    pub tcp_connection_rotations: u64,
    /// Attempts to publish that a broker turned down before it took the message.
    pub producer_retries: u64,
    /// Requests of which nobody knows whether they were carried out.
    pub producer_ambiguous_failures: u64,
}

impl Default for ProxyMetrics {
    fn default() -> (r: Self)
        ensures
            r.tcp_connection_rotations == 0,
            r.producer_retries == 0,
            r.producer_ambiguous_failures == 0,
    {
        ProxyMetrics {
            tcp_connection_rotations: 0,
            producer_retries: 0,
            producer_ambiguous_failures: 0,
        }
    }
}

/// What is counted, after the latencies of the brokers and of the polls.
pub open spec fn rendered(backend: Seq<char>, discovery_poll: Seq<char>, rotations: nat) -> Seq<
    char,
> {
    backend + discovery_poll
        + "# HELP rustqueue_proxy_tcp_connection_rotations_total TCP tunnels closed after reaching the configured maximum age.\n# TYPE rustqueue_proxy_tcp_connection_rotations_total counter\nrustqueue_proxy_tcp_connection_rotations_total "@
        + text::dec(rotations) + "\n"@
}

/// How many brokers there are, and whether the producer protocol ends here.
pub open spec fn inventory(publish: nat, brokers: nat, gateway: bool) -> Seq<char> {
    "# HELP rustqueue_proxy_publish_backends Number of publish-ready Brokers known to the proxy.\n# TYPE rustqueue_proxy_publish_backends gauge\n# HELP rustqueue_proxy_broker_backends Number of Brokers known to the proxy for compatibility reads.\n# TYPE rustqueue_proxy_broker_backends gauge\n# HELP rustqueue_proxy_kodo_gateway Whether this process terminates the Kodo producer protocol.\n# TYPE rustqueue_proxy_kodo_gateway gauge\nrustqueue_proxy_publish_backends "@
        + text::dec(publish) + "\nrustqueue_proxy_broker_backends "@ + text::dec(brokers)
        + "\nrustqueue_proxy_kodo_gateway "@ + (if gateway {
        "1"@
    } else {
        "0"@
    }) + "\n"@
}

impl ProxyMetrics {
    /// The metrics as a text, after those of the latencies of brokers and polls.
    pub fn render(&self, backend: &str, discovery_poll: &str) -> (r: String)
        ensures
            r@ == rendered(backend@, discovery_poll@, self.tcp_connection_rotations as nat),
    {
        let mut r = backend.to_owned();
        r.append(discovery_poll);
        r.append(
            "# HELP rustqueue_proxy_tcp_connection_rotations_total TCP tunnels closed after reaching the configured maximum age.\n# TYPE rustqueue_proxy_tcp_connection_rotations_total counter\nrustqueue_proxy_tcp_connection_rotations_total ",
        );
        r.append(text::decimal(self.tcp_connection_rotations).as_str());
        r.append("\n");
        r
    }
}

/// The metrics of a proxy with so many brokers.
pub fn prometheus(counted: &str, publish: usize, brokers: usize, gateway: bool) -> (r: String)
    ensures
        r@ == counted@ + inventory(publish as nat, brokers as nat, gateway),
{
    let mut i =
        "# HELP rustqueue_proxy_publish_backends Number of publish-ready Brokers known to the proxy.\n# TYPE rustqueue_proxy_publish_backends gauge\n# HELP rustqueue_proxy_broker_backends Number of Brokers known to the proxy for compatibility reads.\n# TYPE rustqueue_proxy_broker_backends gauge\n# HELP rustqueue_proxy_kodo_gateway Whether this process terminates the Kodo producer protocol.\n# TYPE rustqueue_proxy_kodo_gateway gauge\nrustqueue_proxy_publish_backends ".to_owned();
    i.append(text::decimal(publish as u64).as_str());
    i.append("\nrustqueue_proxy_broker_backends ");
    i.append(text::decimal(brokers as u64).as_str());
    i.append("\nrustqueue_proxy_kodo_gateway ");
    if gateway {
        i.append("1");
    } else {
        i.append("0");
    }
    i.append("\n");
    let mut r = counted.to_owned();
    r.append(i.as_str());
    r
}

} // verus!
