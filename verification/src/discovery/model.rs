//! What brokers report, and what is published of them.
use crate::ordered::OrderedKey;
use crate::text;
use vstd::prelude::*;
use vstd::string::*;

verus! {

/// The release.
pub const VERSION: &'static str = "0.8.3";

/// The address of a host: its family, its bits, and how it is written.
#[derive(Clone, Debug, PartialEq, Eq)]
pub struct Address {
    pub v6: bool,
    pub bits: u128,
    pub text: String,
}

/// Where a broker answers.
#[derive(Clone, Debug, PartialEq, Eq)]
pub struct BrokerEndpoint {
    pub address: Address,
    pub http_port: u16,
}

/// What tells endpoints apart, and orders them: the family, the bits and the
/// port of the address, and how it is written.
pub struct EndpointKey {
    pub v6: bool,
    pub bits: u128,
    pub port: u16,
    pub text: Seq<char>,
}

impl OrderedKey for BrokerEndpoint {
    type Key = EndpointKey;

    open spec fn key(&self) -> EndpointKey {
        EndpointKey {
            v6: self.address.v6,
            bits: self.address.bits,
            port: self.http_port,
            text: self.address.text@,
        }
    }

    open spec fn before(a: EndpointKey, b: EndpointKey) -> bool {
        if a.v6 != b.v6 {
            b.v6
        } else if a.bits != b.bits {
            a.bits < b.bits
        } else if a.port != b.port {
            a.port < b.port
        } else {
            text::text_lt(a.text, b.text)
        }
    }

    proof fn order(a: EndpointKey, b: EndpointKey, c: EndpointKey) {
        text::lemma_text_lt_irreflexive(a.text);
        if text::text_lt(a.text, b.text) && text::text_lt(b.text, c.text) {
            text::lemma_text_lt_transitive(a.text, b.text, c.text);
        }
        text::lemma_text_lt_total(a.text, b.text);
    }

    fn precedes(&self, other: &BrokerEndpoint) -> (r: bool) {
        if self.address.v6 != other.address.v6 {
            other.address.v6
        } else if self.address.bits != other.address.bits {
            self.address.bits < other.address.bits
        } else if self.http_port != other.http_port {
            self.http_port < other.http_port
        } else {
            text::text_before(self.address.text.as_str(), other.address.text.as_str())
        }
    }

    fn copy(&self) -> (r: BrokerEndpoint) {
        self.duplicate()
    }
}

impl BrokerEndpoint {
    /// A copy of the endpoint.
    pub fn duplicate(&self) -> (r: BrokerEndpoint)
        ensures
            r == *self,
    {
        BrokerEndpoint {
            address: Address {
                v6: self.address.v6,
                bits: self.address.bits,
                text: self.address.text.clone(),
            },
            http_port: self.http_port,
        }
    }

    /// The base of the URLs of the endpoint.
    pub open spec fn base(self) -> Seq<char> {
        if self.address.v6 {
            "http://["@ + self.address.text@ + "]:"@ + text::dec(self.http_port as nat)
        } else {
            "http://"@ + self.address.text@ + ":"@ + text::dec(self.http_port as nat)
        }
    }

    fn base_url(&self) -> (r: String)
        ensures
            r@ == self.base(),
    {
        if self.address.v6 {
            let mut r = "http://[".to_owned();
            r.append(self.address.text.as_str());
            r.append("]:");
            r.append(text::decimal(self.http_port as u64).as_str());
            r
        } else {
            let mut r = "http://".to_owned();
            r.append(self.address.text.as_str());
            r.append(":");
            r.append(text::decimal(self.http_port as u64).as_str());
            r
        }
    }

    /// Where a broker reports its registry.
    pub fn registry_url(&self) -> (r: String)
        ensures
            r@ == self.base() + "/v1/registry"@,
    {
        let mut r = self.base_url();
        r.append("/v1/registry");
        r
    }

    /// Where a broker reports the head of its registry.
    pub fn registry_head_url(&self) -> (r: String)
        ensures
            r@ == self.base() + "/v1/registry/head"@,
    {
        let mut r = self.base_url();
        r.append("/v1/registry/head");
        r
    }
}

/// What a broker reports.
#[derive(Clone, Debug, PartialEq, Eq)]
pub struct BrokerRegistry {
    pub format: u8,
    pub revision: u64,
    pub node_id: u64,
    pub ready: bool,
    pub publish_ready: bool,
    pub consume_ready: bool,
    pub broadcast_address: String,
    pub tcp_port: u16,
    pub http_port: u16,
    pub stored_messages: u64,
    pub depth: u64,
    pub in_flight: u64,
    pub topics: Vec<RegistryTopic>,
    pub compatibility: Option<CompatibilityReport>,
}

/// The head of what a broker reports.
#[derive(Clone, Copy, Debug, PartialEq, Eq, Structural)]
pub struct BrokerRegistryHead {
    pub format: u8,
    pub revision: u64,
    pub node_id: u64,
    pub ready: bool,
    pub publish_ready: bool,
    pub consume_ready: bool,
}

/// What a broker can do and what its storage needs.
#[derive(Clone, Debug, PartialEq, Eq)]
pub struct CompatibilityReport {
    pub binary: BinaryCapabilities,
    pub storage: CompatibilityState,
}

/// What a broker can do.
#[derive(Clone, Debug, PartialEq, Eq)]
pub struct BinaryCapabilities {
    pub binary_version: String,
    pub data_format: u32,
    pub minimum_reader_feature_level: u32,
    pub maximum_reader_feature_level: u32,
    pub maximum_writer_feature_level: u32,
}

/// What the storage of a broker needs.
#[derive(Clone, Copy, Debug, PartialEq, Eq, Structural)]
pub struct CompatibilityState {
    pub data_format: u32,
    pub active_writer_feature_level: u32,
    pub minimum_reader_feature_level: u32,
    pub generation: u64,
}

/// A topic that a broker holds.
#[derive(Clone, Debug, PartialEq, Eq)]
pub struct RegistryTopic {
    pub name: String,
    pub paused: bool,
    pub channels: Vec<String>,
    pub stored_messages: u64,
}

/// `RegistryTopic` as values.
pub struct TopicView {
    pub name: Seq<char>,
    pub paused: bool,
    pub channels: Seq<Seq<char>>,
    pub stored_messages: u64,
}

/// `BrokerRegistry` as values.
pub struct RegistryView {
    pub format: u8,
    pub revision: u64,
    pub node_id: u64,
    pub ready: bool,
    pub publish_ready: bool,
    pub consume_ready: bool,
    pub broadcast_address: Seq<char>,
    pub tcp_port: u16,
    pub http_port: u16,
    pub stored_messages: u64,
    pub depth: u64,
    pub in_flight: u64,
    pub topics: Seq<TopicView>,
    pub compatibility: Option<CompatibilityView>,
}

/// `CompatibilityReport` as values.
pub struct CompatibilityView {
    pub binary_version: Seq<char>,
    pub data_format: u32,
    pub minimum_reader_feature_level: u32,
    pub maximum_reader_feature_level: u32,
    pub maximum_writer_feature_level: u32,
    pub storage: CompatibilityState,
}

impl View for RegistryTopic {
    type V = TopicView;

    open spec fn view(&self) -> TopicView {
        TopicView {
            name: self.name@,
            paused: self.paused,
            channels: text::texts(self.channels@),
            stored_messages: self.stored_messages,
        }
    }
}

impl View for CompatibilityReport {
    type V = CompatibilityView;

    open spec fn view(&self) -> CompatibilityView {
        CompatibilityView {
            binary_version: self.binary.binary_version@,
            data_format: self.binary.data_format,
            minimum_reader_feature_level: self.binary.minimum_reader_feature_level,
            maximum_reader_feature_level: self.binary.maximum_reader_feature_level,
            maximum_writer_feature_level: self.binary.maximum_writer_feature_level,
            storage: self.storage,
        }
    }
}

/// The views of topics.
pub open spec fn topic_views(v: Seq<RegistryTopic>) -> Seq<TopicView> {
    v.map_values(|t: RegistryTopic| t@)
}

impl View for BrokerRegistry {
    type V = RegistryView;

    open spec fn view(&self) -> RegistryView {
        RegistryView {
            format: self.format,
            revision: self.revision,
            node_id: self.node_id,
            ready: self.ready,
            publish_ready: self.publish_ready,
            consume_ready: self.consume_ready,
            broadcast_address: self.broadcast_address@,
            tcp_port: self.tcp_port,
            http_port: self.http_port,
            stored_messages: self.stored_messages,
            depth: self.depth,
            in_flight: self.in_flight,
            topics: topic_views(self.topics@),
            compatibility: match self.compatibility {
                Some(c) => Some(c@),
                None => None,
            },
        }
    }
}

fn same_channels(a: &Vec<String>, b: &Vec<String>) -> (r: bool)
    ensures
        r == (text::texts(a@) == text::texts(b@)),
{
    assert(text::texts(a@).len() == a@.len());
    assert(text::texts(b@).len() == b@.len());
    if a.len() != b.len() {
        return false;
    }
    let mut i: usize = 0;
    while i < a.len()
        invariant
            i <= a@.len(),
            a@.len() == b@.len(),
            forall|j: int| 0 <= j < i ==> text::texts(a@)[j] == text::texts(b@)[j],
        decreases a@.len() - i,
    {
        assert(text::texts(a@)[i as int] == a@[i as int]@);
        assert(text::texts(b@)[i as int] == b@[i as int]@);
        if !text::str_eq(a[i].as_str(), b[i].as_str()) {
            return false;
        }
        i += 1;
    }
    assert(text::texts(a@) =~= text::texts(b@));
    true
}

fn same_topic(a: &RegistryTopic, b: &RegistryTopic) -> (r: bool)
    ensures
        r == (a@ == b@),
{
    text::str_eq(a.name.as_str(), b.name.as_str()) && a.paused == b.paused && a.stored_messages
        == b.stored_messages && same_channels(&a.channels, &b.channels)
}

fn same_topics(a: &Vec<RegistryTopic>, b: &Vec<RegistryTopic>) -> (r: bool)
    ensures
        r == (topic_views(a@) == topic_views(b@)),
{
    assert(topic_views(a@).len() == a@.len());
    assert(topic_views(b@).len() == b@.len());
    if a.len() != b.len() {
        return false;
    }
    let mut i: usize = 0;
    while i < a.len()
        invariant
            i <= a@.len(),
            a@.len() == b@.len(),
            forall|j: int| 0 <= j < i ==> topic_views(a@)[j] == topic_views(b@)[j],
        decreases a@.len() - i,
    {
        assert(topic_views(a@)[i as int] == a@[i as int]@);
        assert(topic_views(b@)[i as int] == b@[i as int]@);
        if !same_topic(&a[i], &b[i]) {
            return false;
        }
        i += 1;
    }
    assert(topic_views(a@) =~= topic_views(b@));
    true
}

fn same_report(a: &Option<CompatibilityReport>, b: &Option<CompatibilityReport>) -> (r: bool)
    ensures
        r == ((match *a {
            Some(c) => Some(c@),
            None => None,
        }) == (match *b {
            Some(c) => Some(c@),
            None => None,
        })),
{
    match (a, b) {
        (Some(x), Some(y)) => text::str_eq(
            x.binary.binary_version.as_str(),
            y.binary.binary_version.as_str(),
        ) && x.binary.data_format == y.binary.data_format
            && x.binary.minimum_reader_feature_level == y.binary.minimum_reader_feature_level
            && x.binary.maximum_reader_feature_level == y.binary.maximum_reader_feature_level
            && x.binary.maximum_writer_feature_level == y.binary.maximum_writer_feature_level
            && x.storage == y.storage,
        (None, None) => true,
        _ => false,
    }
}

impl BrokerRegistry {
    /// Whether a registry says the same.
    pub fn same(&self, other: &BrokerRegistry) -> (r: bool)
        ensures
            r == (self@ == other@),
    {
        self.format == other.format && self.revision == other.revision && self.node_id
            == other.node_id && self.ready == other.ready && self.publish_ready
            == other.publish_ready && self.consume_ready == other.consume_ready && text::str_eq(
            self.broadcast_address.as_str(),
            other.broadcast_address.as_str(),
        ) && self.tcp_port == other.tcp_port && self.http_port == other.http_port
            && self.stored_messages == other.stored_messages && self.depth == other.depth
            && self.in_flight == other.in_flight && same_topics(&self.topics, &other.topics)
            && same_report(&self.compatibility, &other.compatibility)
    }
}

/// A broker, or a gateway, as it is published.
#[derive(Clone, Debug, PartialEq, Eq)]
pub struct Producer {
    pub remote_address: String,
    pub hostname: String,
    pub broadcast_address: String,
    pub tcp_port: u16,
    pub http_port: u16,
    pub version: String,
    pub node_id: u64,
}

/// `Producer` as values.
pub struct ProducerView {
    pub remote_address: Seq<char>,
    pub hostname: Seq<char>,
    pub broadcast_address: Seq<char>,
    pub tcp_port: u16,
    pub http_port: u16,
    pub version: Seq<char>,
    pub node_id: u64,
}

impl View for Producer {
    type V = ProducerView;

    open spec fn view(&self) -> ProducerView {
        ProducerView {
            remote_address: self.remote_address@,
            hostname: self.hostname@,
            broadcast_address: self.broadcast_address@,
            tcp_port: self.tcp_port,
            http_port: self.http_port,
            version: self.version@,
            node_id: self.node_id,
        }
    }
}

/// The views of producers.
pub open spec fn producer_views(v: Seq<Producer>) -> Seq<ProducerView> {
    v.map_values(|p: Producer| p@)
}

/// A broker as it is published.
pub open spec fn published(r: RegistryView) -> ProducerView {
    ProducerView {
        remote_address: r.broadcast_address + ":"@ + text::dec(r.tcp_port as nat),
        hostname: r.broadcast_address,
        broadcast_address: r.broadcast_address,
        tcp_port: r.tcp_port,
        http_port: r.http_port,
        version: "0.8.3"@,
        node_id: r.node_id,
    }
}

/// The port of a gateway for publishing.
pub open spec fn gateway_tcp_port(ordinal: usize) -> u16 {
    if ordinal == 1 {
        4152
    } else if ordinal == 2 {
        4153
    } else {
        4150
    }
}

/// The port of a gateway for HTTP.
pub open spec fn gateway_http_port(ordinal: usize) -> u16 {
    if ordinal == 1 {
        4154
    } else if ordinal == 2 {
        4155
    } else {
        4151
    }
}

/// The node ID of a gateway.
pub open spec fn gateway_node_id(ordinal: usize) -> u64 {
    if 1000000 + ordinal > u64::MAX {
        u64::MAX
    } else {
        (1000000 + ordinal) as u64
    }
}

/// A gateway as it is published.
pub open spec fn published_gateway(address: Seq<char>, ordinal: usize) -> ProducerView {
    ProducerView {
        remote_address: address + ":"@ + text::dec(gateway_tcp_port(ordinal) as nat),
        hostname: address,
        broadcast_address: address,
        tcp_port: gateway_tcp_port(ordinal),
        http_port: gateway_http_port(ordinal),
        version: "0.8.3"@,
        node_id: gateway_node_id(ordinal),
    }
}

impl Producer {
    /// A broker as it is published.
    pub fn from_registry(registry: &BrokerRegistry) -> (r: Self)
        ensures
            r@ == published(registry@),
    {
        let mut remote_address = registry.broadcast_address.clone();
        remote_address.append(":");
        remote_address.append(text::decimal(registry.tcp_port as u64).as_str());
        Producer {
            remote_address,
            hostname: registry.broadcast_address.clone(),
            broadcast_address: registry.broadcast_address.clone(),
            tcp_port: registry.tcp_port,
            http_port: registry.http_port,
            version: "0.8.3".to_owned(),
            node_id: registry.node_id,
        }
    }

    /// A gateway as it is published: all have one address and differ in their
    /// ports.
    pub fn gateway(address: String, ordinal: usize) -> (r: Self)
        ensures
            r@ == published_gateway(address@, ordinal),
    {
        let tcp_port: u16 = if ordinal == 1 {
            4152
        } else if ordinal == 2 {
            4153
        } else {
            4150
        };
        let http_port: u16 = if ordinal == 1 {
            4154
        } else if ordinal == 2 {
            4155
        } else {
            4151
        };
        let id: u128 = 1000000 + ordinal as u128;
        let node_id: u64 = if id > u64::MAX as u128 {
            u64::MAX
        } else {
            id as u64
        };
        let mut remote_address = address.clone();
        remote_address.append(":");
        remote_address.append(text::decimal(tcp_port as u64).as_str());
        Producer {
            remote_address,
            hostname: address.clone(),
            broadcast_address: address,
            tcp_port,
            http_port,
            version: "0.8.3".to_owned(),
            node_id,
        }
    }

    /// A copy of the producer.
    pub fn duplicate(&self) -> (r: Self)
        ensures
            r == *self,
    {
        Producer {
            remote_address: self.remote_address.clone(),
            hostname: self.hostname.clone(),
            broadcast_address: self.broadcast_address.clone(),
            tcp_port: self.tcp_port,
            http_port: self.http_port,
            version: self.version.clone(),
            node_id: self.node_id,
        }
    }
}

/// Brokers are published under the address and the ports that they report.
pub proof fn law_brokers_are_published_as_they_report(r: RegistryView)
    ensures
        ({
            let p = published(r);
            &&& p.node_id == r.node_id
            &&& p.broadcast_address == r.broadcast_address && p.hostname == r.broadcast_address
            &&& p.tcp_port == r.tcp_port && p.http_port == r.http_port
            &&& p.remote_address == r.broadcast_address + ":"@ + text::dec(r.tcp_port as nat)
        }),
{
}

/// The three gateways have ports and numbers of their own.
pub proof fn law_gateways_have_their_own_ports(address: Seq<char>, i: usize, j: usize)
    requires
        i < 3,
        j < 3,
    ensures
        ({
            let p = published_gateway(address, i);
            let q = published_gateway(address, j);
            &&& p.broadcast_address == address && p.hostname == address
            &&& p.remote_address == address + ":"@ + text::dec(p.tcp_port as nat)
            &&& i != j ==> p.tcp_port != q.tcp_port && p.http_port != q.http_port && p.node_id
                != q.node_id
            &&& p.tcp_port != q.http_port
            &&& p.node_id == 1000000 + i
            &&& i == 0 ==> p.tcp_port == 4150 && p.http_port == 4151
        }),
{
}

/// An endpoint is reached at its address and port, in brackets where the address is of the newer
/// kind.
pub proof fn law_endpoints_are_reached_at_their_address(e: BrokerEndpoint)
    ensures
        text::starts(e.base(), "http://"@),
        text::ends(e.base(), ":"@ + text::dec(e.http_port as nat)),
        !e.address.v6 ==> e.base() == "http://"@ + e.address.text@ + ":"@ + text::dec(
            e.http_port as nat,
        ),
        e.address.v6 ==> text::starts(e.base(), "http://["@ + e.address.text@ + "]"@),
{
    reveal_strlit("http://");
    reveal_strlit("http://[");
    reveal_strlit("]:");
    reveal_strlit("]");
    reveal_strlit(":");
    let b = e.base();
    let d = text::dec(e.http_port as nat);
    assert(b.take("http://"@.len() as int) =~= "http://"@);
    assert(b.skip(b.len() - (":"@ + d).len()) =~= ":"@ + d);
    if e.address.v6 {
        let h = "http://["@ + e.address.text@ + "]"@;
        assert(b.take(h.len() as int) =~= h);
    }
}

/// The second and the third gateway listen on the ports behind those of a broker.
pub proof fn law_later_gateways_listen_behind_the_first(address: Seq<char>, i: usize)
    requires
        1 <= i < 3,
    ensures
        published_gateway(address, i).tcp_port == 4151 + i,
        published_gateway(address, i).http_port == 4153 + i,
        published_gateway(address, i).version == VERSION@,
        published_gateway(address, 0).version == VERSION@,
{
}

/// Endpoints stand in the order of their addresses, those of the older kind
/// first, and at one address in the order of their ports.
pub proof fn law_endpoints_stand_by_address_and_port(
    a: &BrokerEndpoint,
    b: &BrokerEndpoint,
    r: bool,
)
    requires
        r == BrokerEndpoint::before(a.key(), b.key()),
    ensures
        !a.address.v6 && b.address.v6 ==> r,
        a.address.v6 && !b.address.v6 ==> !r,
        a.address.v6 == b.address.v6 && a.address.bits < b.address.bits ==> r,
        a.address.v6 == b.address.v6 && a.address.bits > b.address.bits ==> !r,
        a.address == b.address ==> r == (a.http_port < b.http_port),
{
    text::lemma_text_lt_irreflexive(a.address.text@);
}

} // verus!
