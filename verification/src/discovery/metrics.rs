//! The metrics of Discovery.
use crate::text;
use vstd::prelude::*;
use vstd::string::*;

verus! {

/// What is counted.
#[derive(Debug)]
pub struct DiscoveryMetrics {
    pub endpoint_slice_timeouts: u64,
}

impl Default for DiscoveryMetrics {
    fn default() -> (r: Self)
        ensures
            r.endpoint_slice_timeouts == 0,
    {
        DiscoveryMetrics { endpoint_slice_timeouts: 0 }
    }
}

impl DiscoveryMetrics {
    /// The metrics as a text, after those of the latencies of polls and refreshes.
    pub fn render(&self, registry_poll: &str, refresh: &str) -> (r: String)
        ensures
            r@ == registry_poll@ + refresh@
                + "# HELP rustqueue_discovery_endpoint_slice_timeouts_total Kubernetes EndpointSlice list requests that exceeded their deadline.\n# TYPE rustqueue_discovery_endpoint_slice_timeouts_total counter\nrustqueue_discovery_endpoint_slice_timeouts_total "@
                + text::dec(self.endpoint_slice_timeouts as nat) + "\n"@,
    {
        let mut r = registry_poll.to_owned();
        r.append(refresh);
        r.append(
            "# HELP rustqueue_discovery_endpoint_slice_timeouts_total Kubernetes EndpointSlice list requests that exceeded their deadline.\n# TYPE rustqueue_discovery_endpoint_slice_timeouts_total counter\nrustqueue_discovery_endpoint_slice_timeouts_total ",
        );
        r.append(text::decimal(self.endpoint_slice_timeouts).as_str());
        r.append("\n");
        r
    }
}

} // verus!
