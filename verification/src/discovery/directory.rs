//! The directory of brokers.
use crate::digest;
use crate::discovery::index::{self, Index};
use crate::discovery::model::{
    self, BrokerEndpoint, BrokerRegistry, BrokerRegistryHead, EndpointKey, Producer, ProducerView,
    RegistryView,
};
use crate::ordered::{self, OrderedKey, SortedMap, SortedSet};
use crate::text;
use crate::wire;
use vstd::prelude::*;
use vstd::string::*;
use vstd::utf8::*;

verus! {

/// How many brokers Kodo is served with.
pub const KODO_BROKER_COUNT: usize = 3;

/// What a broker reported, and when. Times are in nanoseconds of one clock.
pub struct Observation {
    pub registry: BrokerRegistry,
    pub seen_at: u128,
}

/// `Observation` as values.
pub struct ObservationView {
    pub registry: RegistryView,
    pub seen_at: u128,
}

impl View for Observation {
    type V = ObservationView;

    open spec fn view(&self) -> ObservationView {
        ObservationView { registry: self.registry@, seen_at: self.seen_at }
    }
}

/// The directory of brokers.
pub struct Directory {
    endpoints: SortedSet<BrokerEndpoint>,
    brokers: SortedMap<BrokerEndpoint, Observation>,
    index: Index,
    kodo_compatibility_enabled: bool,
    kodo_gateways: Vec<Producer>,
    kodo_cleanup_enabled: bool,
    source_stale_after: Option<u128>,
    last_source_success: Option<u128>,
}

/// `Directory` as values.
pub struct DirectoryView {
    pub endpoints: Set<EndpointKey>,
    pub brokers: Map<EndpointKey, ObservationView>,
    pub kodo_compatibility_enabled: bool,
    pub kodo_gateways: Seq<ProducerView>,
    pub kodo_cleanup_enabled: bool,
    pub source_stale_after: Option<u128>,
    pub last_source_success: Option<u128>,
}

/// What brokers reported.
pub open spec fn reports(b: Map<EndpointKey, ObservationView>) -> Map<EndpointKey, RegistryView> {
    b.map_values(|o: ObservationView| o.registry)
}

/// What some brokers reported, in order.
pub open spec fn registries(b: Map<EndpointKey, ObservationView>, s: Seq<EndpointKey>) -> Seq<
    RegistryView,
> {
    s.map_values(|e: EndpointKey| b[e].registry)
}

/// Whether a producer with a node ID is among some.
pub open spec fn has_node(v: Seq<ProducerView>, id: u64) -> bool {
    exists|i: int| 0 <= i < v.len() && (#[trigger] v[i]).node_id == id
}

/// Producers with one more, by node ID.
pub open spec fn insert_producer(v: Seq<ProducerView>, p: ProducerView) -> Seq<ProducerView>
    decreases v.len(),
{
    if v.len() > 0 && p.node_id < v.last().node_id {
        insert_producer(v.drop_last(), p).push(v.last())
    } else {
        v.push(p)
    }
}

/// The producers of some registries, one for each node, by node ID: the first
/// registry of a node counts.
pub open spec fn unique(r: Seq<RegistryView>) -> Seq<ProducerView>
    decreases r.len(),
{
    if r.len() == 0 {
        Seq::empty()
    } else {
        let u = unique(r.drop_last());
        if has_node(u, r.last().node_id) {
            u
        } else {
            insert_producer(u, model::published(r.last()))
        }
    }
}

impl DirectoryView {
    /// The endpoints of the brokers that can be published to.
    pub open spec fn publishing(self) -> Set<EndpointKey> {
        Set::new(
            |e: EndpointKey|
                self.brokers.contains_key(e) && self.brokers[e].registry.publish_ready,
        )
    }

    /// The endpoints of the brokers that serve consumers.
    pub open spec fn consuming(self) -> Set<EndpointKey> {
        Set::new(
            |e: EndpointKey|
                self.brokers.contains_key(e) && index::consumes(self.brokers[e].registry),
        )
    }

    /// The endpoints of the brokers that serve a topic.
    pub open spec fn serving(self, topic: Seq<char>) -> Set<EndpointKey> {
        Set::new(|e: EndpointKey| index::serves(reports(self.brokers), topic, e))
    }

    /// The topics that some broker serves.
    pub open spec fn topic_set(self) -> Set<Seq<char>> {
        Set::new(
            |t: Seq<char>| exists|e: EndpointKey| index::serves(reports(self.brokers), t, e),
        )
    }

    /// The channels of a topic that some broker serves.
    pub open spec fn channel_set(self, topic: Seq<char>) -> Set<Seq<char>> {
        Set::new(
            |c: Seq<char>|
                exists|e: EndpointKey|
                    index::serves_channel(reports(self.brokers), topic, c, e),
        )
    }

    /// The brokers at some endpoints, as producers.
    pub open spec fn producers_at(self, d: Set<EndpointKey>) -> Seq<ProducerView> {
        unique(registries(self.brokers, ordered::listed::<BrokerEndpoint>(d)))
    }

    /// The brokers that can be published to.
    pub open spec fn publishers(self) -> Seq<ProducerView> {
        self.producers_at(self.publishing())
    }

    /// All brokers.
    pub open spec fn all(self) -> Seq<ProducerView> {
        self.producers_at(self.brokers.dom())
    }

    /// The brokers that serve consumers.
    pub open spec fn consumers(self) -> Seq<ProducerView> {
        self.producers_at(self.consuming())
    }

    /// Whether the sources were heard of lately.
    pub open spec fn is_fresh(self, now: u128) -> bool {
        self.last_source_success is Some && self.source_stale_after is Some && now
            - self.last_source_success->0 <= self.source_stale_after->0
    }

    /// Whether three brokers serve consumers, one for each gateway.
    pub open spec fn inventory_ready(self) -> bool {
        shards_complete(self.consumers())
    }
}

/// The gateway that a node is assigned to.
pub open spec fn shard(node_id: u64) -> int {
    (node_id - 1) % 3
}

/// Whether there are three nodes, one for each gateway.
pub open spec fn shards_complete(v: Seq<ProducerView>) -> bool {
    &&& v.len() == 3
    &&& v[0].node_id != 0 && v[1].node_id != 0 && v[2].node_id != 0
    &&& shard(v[0].node_id) != shard(v[1].node_id)
    &&& shard(v[0].node_id) != shard(v[2].node_id)
    &&& shard(v[1].node_id) != shard(v[2].node_id)
}

proof fn lemma_insert_producer(v: Seq<ProducerView>, p: ProducerView, k: int)
    requires
        0 <= k <= v.len(),
        forall|j: int| k <= j < v.len() ==> p.node_id < (#[trigger] v[j]).node_id,
        k > 0 ==> p.node_id >= v[k - 1].node_id,
    ensures
        insert_producer(v, p) == v.insert(k, p),
    decreases v.len(),
{
    if k == v.len() {
        assert(v.insert(k, p) =~= v.push(p));
    } else {
        lemma_insert_producer(v.drop_last(), p, k);
        assert(v.drop_last().insert(k, p).push(v.last()) =~= v.insert(k, p));
    }
}

/// Adds the producer of a registry, unless its node has one.
fn add_unique(v: &mut Vec<Producer>, registry: &BrokerRegistry)
    ensures
        model::producer_views(final(v)@) == if has_node(
            model::producer_views(old(v)@),
            registry@.node_id,
        ) {
            model::producer_views(old(v)@)
        } else {
            insert_producer(model::producer_views(old(v)@), model::published(registry@))
        },
{
    let ghost views = model::producer_views(v@);
    let mut i: usize = 0;
    while i < v.len()
        invariant
            i <= v@.len(),
            v@ == old(v)@,
            views == model::producer_views(v@),
            forall|j: int| 0 <= j < i ==> (#[trigger] views[j]).node_id != registry.node_id,
        decreases v@.len() - i,
    {
        assert(views[i as int] == v@[i as int]@);
        if v[i].node_id == registry.node_id {
            return ;
        }
        i += 1;
    }
    let p = Producer::from_registry(registry);
    let mut k: usize = v.len();
    while k > 0 && p.node_id < v[k - 1].node_id
        invariant
            k <= v@.len(),
            v@ == old(v)@,
            views == model::producer_views(v@),
            forall|j: int| k <= j < v@.len() ==> p.node_id < (#[trigger] views[j]).node_id,
        decreases k,
    {
        assert(views[k - 1] == v@[k - 1]@);
        k -= 1;
    }
    proof {
        if k > 0 {
            assert(views[k - 1] == v@[k - 1]@);
        }
        lemma_insert_producer(views, p@, k as int);
        assert(model::producer_views(v@.insert(k as int, p)) =~= views.insert(k as int, p@));
    }
    v.insert(k, p);
}

/// The producers of some registries, one for each node.
pub fn unique_producers(registries: &Vec<&BrokerRegistry>) -> (r: Vec<Producer>)
    ensures
        model::producer_views(r@) == unique(
            registries@.map_values(|x: &BrokerRegistry| x@),
        ),
{
    let ghost views = registries@.map_values(|x: &BrokerRegistry| x@);
    let mut out: Vec<Producer> = Vec::new();
    let mut i: usize = 0;
    assert(views.take(0) =~= Seq::<RegistryView>::empty());
    assert(model::producer_views(out@) =~= unique(views.take(0)));
    while i < registries.len()
        invariant
            i <= registries@.len(),
            views == registries@.map_values(|x: &BrokerRegistry| x@),
            model::producer_views(out@) == unique(views.take(i as int)),
        decreases registries@.len() - i,
    {
        assert(views.take(i + 1).drop_last() =~= views.take(i as int));
        assert(views.take(i + 1).last() == registries@[i as int]@);
        add_unique(&mut out, registries[i]);
        i += 1;
    }
    assert(views.take(registries@.len() as int) =~= views);
    out
}

fn copy_producers(v: &Vec<Producer>) -> (r: Vec<Producer>)
    ensures
        r@ == v@,
{
    let mut out: Vec<Producer> = Vec::new();
    let mut i: usize = 0;
    while i < v.len()
        invariant
            i <= v@.len(),
            out@ == v@.take(i as int),
        decreases v@.len() - i,
    {
        out.push(v[i].duplicate());
        i += 1;
        assert(v@.take(i as int) =~= v@.take(i - 1).push(v@[i - 1]));
    }
    assert(v@.take(v@.len() as int) =~= v@);
    out
}

fn copy_keys(v: &Vec<String>) -> (r: Vec<String>)
    ensures
        text::texts(r@) == ordered::places(v@),
{
    let mut out: Vec<String> = Vec::new();
    let mut i: usize = 0;
    while i < v.len()
        invariant
            i <= v@.len(),
            out@ == v@.take(i as int),
        decreases v@.len() - i,
    {
        out.push(v[i].clone());
        i += 1;
        assert(v@.take(i as int) =~= v@.take(i - 1).push(v@[i - 1]));
    }
    assert(v@.take(v@.len() as int) =~= v@);
    assert(text::texts(out@) =~= ordered::places(v@));
    out
}

/// The bytes that stand for a producer in a routing table.
pub open spec fn producer_bytes(role: u8, p: ProducerView) -> Seq<u8> {
    seq![role] + wire::be(p.node_id as nat, 8) + wire::be(
        encode_utf8(p.broadcast_address).len(),
        8,
    ) + encode_utf8(p.broadcast_address) + wire::be(p.tcp_port as nat, 2) + wire::be(
        p.http_port as nat,
        2,
    )
}

/// The bytes that stand for some producers.
pub open spec fn producers_bytes(role: u8, v: Seq<ProducerView>) -> Seq<u8>
    decreases v.len(),
{
    if v.len() == 0 {
        Seq::empty()
    } else {
        producers_bytes(role, v.drop_last()) + producer_bytes(role, v.last())
    }
}

/// The bytes that stand for a routing table: who can be published to (`P`), and
/// all brokers (`B`).
pub open spec fn routing_bytes(publishers: Seq<ProducerView>, brokers: Seq<ProducerView>) -> Seq<
    u8,
> {
    producers_bytes(80, publishers) + producers_bytes(66, brokers)
}

/// The revision that a digest of a routing table gives: its first eight bytes, and
/// never zero.
pub open spec fn revision_from(digest: Seq<u8>) -> u64 {
    if digest::digest_number(digest) == 0 {
        1
    } else {
        digest::digest_number(digest)
    }
}

/// The revision that a digest of a routing table gives.
pub fn revision_of_digest(digest: &[u8]) -> (r: u64)
    requires
        digest@.len() >= 8,
    ensures
        r == revision_from(digest@),
        r != 0,
{
    let n: u64 = digest::number_of(digest);
    if n == 0 {
        1
    } else {
        n
    }
}

/// The revision of a routing table.
pub open spec fn routing_revision(d: DirectoryView) -> u64 {
    revision_from(digest::sha256(routing_bytes(d.publishers(), d.all())))
}

fn push_producer(bytes: &mut Vec<u8>, role: u8, p: &Producer)
    ensures
        final(bytes)@ == old(bytes)@ + producer_bytes(role, p@),
{
    let address = digest::text_bytes(p.broadcast_address.as_str());
    let ghost start = bytes@;
    bytes.push(role);
    wire::push_be(bytes, p.node_id, 8);
    wire::push_be(bytes, address.len() as u64, 8);
    wire::push_all(bytes, address);
    wire::push_be(bytes, p.tcp_port as u64, 2);
    wire::push_be(bytes, p.http_port as u64, 2);
    assert(bytes@ =~= start + producer_bytes(role, p@));
}

fn push_producers(bytes: &mut Vec<u8>, role: u8, v: &Vec<Producer>)
    ensures
        final(bytes)@ == old(bytes)@ + producers_bytes(role, model::producer_views(v@)),
{
    let ghost views = model::producer_views(v@);
    let ghost start = bytes@;
    let mut i: usize = 0;
    assert(views.take(0) =~= Seq::<ProducerView>::empty());
    assert(bytes@ =~= start + producers_bytes(role, views.take(0)));
    while i < v.len()
        invariant
            i <= v@.len(),
            views == model::producer_views(v@),
            bytes@ == start + producers_bytes(role, views.take(i as int)),
        decreases v@.len() - i,
    {
        assert(views.take(i + 1).drop_last() =~= views.take(i as int));
        assert(views.take(i + 1).last() == v@[i as int]@);
        let ghost head = producers_bytes(role, views.take(i as int));
        push_producer(bytes, role, &v[i]);
        assert(bytes@ =~= start + (head + producer_bytes(role, v@[i as int]@)));
        i += 1;
    }
    assert(views.take(v@.len() as int) =~= views);
}

fn revision_of(publishers: &Vec<Producer>, brokers: &Vec<Producer>) -> (r: u64)
    ensures
        r == revision_from(
            digest::sha256(
                routing_bytes(model::producer_views(publishers@), model::producer_views(brokers@)),
            ),
        ),
        r != 0,
{
    let mut bytes: Vec<u8> = Vec::new();
    push_producers(&mut bytes, 80, publishers);
    push_producers(&mut bytes, 66, brokers);
    assert(bytes@ =~= routing_bytes(
        model::producer_views(publishers@),
        model::producer_views(brokers@),
    ));
    let digest = digest::sha256_of(bytes.as_slice());
    revision_of_digest(digest.as_slice())
}

impl View for Directory {
    type V = DirectoryView;

    closed spec fn view(&self) -> DirectoryView {
        DirectoryView {
            endpoints: self.endpoints@,
            brokers: self.brokers@.map_values(|o: Observation| o@),
            kodo_compatibility_enabled: self.kodo_compatibility_enabled,
            kodo_gateways: model::producer_views(self.kodo_gateways@),
            kodo_cleanup_enabled: self.kodo_cleanup_enabled,
            source_stale_after: self.source_stale_after,
            last_source_success: self.last_source_success,
        }
    }
}

impl Default for Directory {
    fn default() -> (r: Self)
        ensures
            r.wf(),
            r@ == (DirectoryView {
                endpoints: Set::empty(),
                brokers: Map::empty(),
                kodo_compatibility_enabled: false,
                kodo_gateways: Seq::empty(),
                kodo_cleanup_enabled: false,
                source_stale_after: None,
                last_source_success: None,
            }),
    {
        let r = Directory {
            endpoints: SortedSet::new(),
            brokers: SortedMap::new(),
            index: Index::new(),
            kodo_compatibility_enabled: false,
            kodo_gateways: Vec::new(),
            kodo_cleanup_enabled: false,
            source_stale_after: None,
            last_source_success: None,
        };
        proof {
            assert(r@.brokers =~= Map::empty());
            assert(reports(r@.brokers) =~= Map::empty());
            assert(r@.kodo_gateways =~= Seq::empty());
        }
        r
    }
}

/// Whether a broker stays when only some endpoints are left, or grows too old.
pub open spec fn is_kept(d: DirectoryView, e: EndpointKey, max_age: u128, now: u128) -> bool {
    d.endpoints.contains(e) && now - d.brokers[e].seen_at <= max_age
}

impl Directory {
    /// Whether the index says of the brokers what they report.
    pub closed spec fn wf(&self) -> bool {
        &&& self.endpoints.wf()
        &&& self.brokers.wf()
        &&& self.index.matches(reports(self@.brokers))
    }

    /// Serves Kodo, with the gateways that are given.
    pub fn configure_kodo(&mut self, gateways: Vec<Producer>, cleanup_enabled: bool)
        requires
            old(self).wf(),
        ensures
            final(self).wf(),
            final(self)@ == (DirectoryView {
                kodo_compatibility_enabled: true,
                kodo_gateways: model::producer_views(gateways@),
                kodo_cleanup_enabled: cleanup_enabled,
                ..old(self)@
            }),
    {
        self.kodo_compatibility_enabled = true;
        self.kodo_gateways = gateways;
        self.kodo_cleanup_enabled = cleanup_enabled;
    }

    /// Sets how long a success of the sources counts.
    pub fn configure_source_health(&mut self, stale_after: u128)
        requires
            old(self).wf(),
        ensures
            final(self).wf(),
            final(self)@ == (DirectoryView { source_stale_after: Some(stale_after), ..old(self)@ }),
    {
        self.source_stale_after = Some(stale_after);
    }

    /// Records a success of the sources.
    pub fn mark_source_success(&mut self, now: u128)
        requires
            old(self).wf(),
        ensures
            final(self).wf(),
            final(self)@ == (DirectoryView { last_source_success: Some(now), ..old(self)@ }),
    {
        self.last_source_success = Some(now);
    }

    /// Whether the sources were heard of lately.
    pub fn source_ready(&self, now: u128) -> (r: bool)
        ensures
            r == self@.is_fresh(now),
    {
        match (self.last_source_success, self.source_stale_after) {
            (Some(last), Some(stale)) => now <= last || now - last <= stale,
            _ => false,
        }
    }

    /// Whether lookups are complete: the sources were heard of, and where Kodo is
    /// served, each gateway has its broker.
    pub fn lookup_ready(&self, now: u128) -> (r: bool)
        requires
            self.wf(),
        ensures
            r == (self@.is_fresh(now) && (!self@.kodo_compatibility_enabled || (
            self@.kodo_gateways.len() == 3 && self@.inventory_ready()))),
    {
        assert(self@.kodo_gateways.len() == self.kodo_gateways@.len());
        self.source_ready(now) && (!self.kodo_compatibility_enabled || (self.kodo_gateways.len()
            == KODO_BROKER_COUNT && self.kodo_broker_inventory_ready()))
    }

    fn kodo_broker_inventory_ready(&self) -> (r: bool)
        requires
            self.wf(),
        ensures
            r == self@.inventory_ready(),
    {
        let v = self.consumer_producers();
        let ghost views = model::producer_views(v@);
        assert(views.len() == v@.len());
        if v.len() != 3 {
            return false;
        }
        assert(views[0] == v@[0]@ && views[1] == v@[1]@ && views[2] == v@[2]@);
        let (a, b, c): (u64, u64, u64) = (v[0].node_id, v[1].node_id, v[2].node_id);
        if a == 0 || b == 0 || c == 0 {
            return false;
        }
        (a - 1) % 3 != (b - 1) % 3 && (a - 1) % 3 != (c - 1) % 3 && (b - 1) % 3 != (c - 1) % 3
    }

    /// Forgets a broker.
    fn forget(&mut self, endpoint: &BrokerEndpoint)
        requires
            old(self).wf(),
        ensures
            final(self).wf(),
            final(self)@ == (DirectoryView {
                brokers: old(self)@.brokers.remove(endpoint.key()),
                ..old(self)@
            }),
    {
        let ghost b = reports(self@.brokers);
        match self.brokers.remove(endpoint) {
            Some(o) => {
                self.index.deindex(endpoint, &o.registry, Ghost(b));
                assert(reports(self@.brokers) =~= b.remove(endpoint.key()));
            },
            None => {
                assert(reports(self@.brokers) =~= b);
            },
        }
        assert(self@.brokers =~= old(self)@.brokers.remove(endpoint.key()));
    }

    /// Adds a broker that is not there.
    fn add_broker(&mut self, endpoint: BrokerEndpoint, registry: BrokerRegistry, now: u128)
        requires
            old(self).wf(),
            !old(self)@.brokers.contains_key(endpoint.key()),
        ensures
            final(self).wf(),
            final(self)@ == (DirectoryView {
                brokers: old(self)@.brokers.insert(
                    endpoint.key(),
                    ObservationView { registry: registry@, seen_at: now },
                ),
                ..old(self)@
            }),
    {
        let ghost b = reports(self@.brokers);
        let ghost key = endpoint.key();
        let ghost view = registry@;
        self.index.index(&endpoint, &registry, Ghost(b));
        self.brokers.insert(endpoint, Observation { registry, seen_at: now });
        proof {
            assert(self@.brokers =~= old(self)@.brokers.insert(
                key,
                ObservationView { registry: view, seen_at: now },
            ));
            assert(reports(self@.brokers) =~= b.insert(key, view));
        }
    }

    /// Replaces the endpoints; brokers at others are forgotten.
    pub fn replace_endpoints(&mut self, endpoints: SortedSet<BrokerEndpoint>)
        requires
            old(self).wf(),
            endpoints.wf(),
        ensures
            final(self).wf(),
            final(self)@ == (DirectoryView {
                endpoints: endpoints@,
                brokers: old(self)@.brokers.restrict(endpoints@),
                ..old(self)@
            }),
    {
        let mut removed: Vec<BrokerEndpoint> = Vec::new();
        let ghost all = self.brokers.order();
        let mut i: usize = 0;
        while i < self.brokers.keys.len()
            invariant
                i <= self.brokers.keys@.len(),
                *self == *old(self),
                self.wf(),
                endpoints.wf(),
                all == self.brokers.order(),
                forall|j: int|
                    0 <= j < i ==> (ordered::places(removed@).contains(#[trigger] all[j])
                        <==> !endpoints@.contains(all[j])),
                forall|k: EndpointKey| #[trigger]
                    ordered::places(removed@).contains(k) ==> all.contains(k)
                        && !endpoints@.contains(k),
            decreases self.brokers.keys@.len() - i,
        {
            assert(all[i as int] == self.brokers.keys@[i as int].key());
            proof {
                lemma_distinct(all, i as int);
            }
            if !endpoints.contains(&self.brokers.keys[i]) {
                let k = self.brokers.keys[i].copy();
                let ghost before = removed@;
                removed.push(k);
                proof {
                    lemma_push_place(before, k);
                    assert(all.contains(all[i as int]));
                }
            }
            i += 1;
        }
        self.forget_all(&removed);
        self.endpoints = endpoints;
        proof {
            let d = old(self)@.brokers;
            assert forall|k: EndpointKey| self@.brokers.contains_key(k) <==> d.restrict(
                endpoints@,
            ).contains_key(k) by {
                if d.contains_key(k) {
                    let p = old(self).brokers.lemma_position(k);
                    assert(all[p] == k);
                }
            }
            assert(self@.brokers =~= d.restrict(endpoints@));
        }
    }

    fn forget_all(&mut self, removed: &Vec<BrokerEndpoint>)
        requires
            old(self).wf(),
        ensures
            final(self).wf(),
            final(self)@ == (DirectoryView {
                brokers: old(self)@.brokers.remove_keys(ordered::places(removed@).to_set()),
                ..old(self)@
            }),
    {
        let ghost d = self@.brokers;
        let ghost gone = ordered::places(removed@);
        let mut i: usize = 0;
        assert(self@.brokers =~= d.remove_keys(gone.take(0).to_set()));
        while i < removed.len()
            invariant
                i <= removed@.len(),
                self.wf(),
                gone == ordered::places(removed@),
                d == old(self)@.brokers,
                self@ == (DirectoryView {
                    brokers: d.remove_keys(gone.take(i as int).to_set()),
                    ..old(self)@
                }),
            decreases removed@.len() - i,
        {
            self.forget(&removed[i]);
            proof {
                let a = gone.take(i as int);
                let b = gone.take(i + 1);
                assert(b =~= a.push(gone[i as int]));
                assert forall|k: EndpointKey| b.to_set().contains(k) <==> a.to_set().contains(k)
                    || k == gone[i as int] by {
                    lemma_push_contains(a, gone[i as int], k);
                }
                assert(d.remove_keys(a.to_set()).remove(gone[i as int]) =~= d.remove_keys(
                    b.to_set(),
                ));
            }
            i += 1;
        }
        assert(gone.take(removed@.len() as int) =~= gone);
    }

    /// The endpoints, in order.
    pub fn endpoints(&self) -> (r: Vec<BrokerEndpoint>)
        requires
            self.wf(),
        ensures
            ordered::places(r@) == ordered::listed::<BrokerEndpoint>(self@.endpoints),
    {
        let copy = self.endpoints.duplicate();
        proof {
            copy.map.lemma_keys();
        }
        copy.map.keys
    }

    /// Takes a broker's report. One of another format is ignored.
    pub fn observe(&mut self, endpoint: BrokerEndpoint, registry: BrokerRegistry, now: u128)
        requires
            old(self).wf(),
        ensures
            final(self).wf(),
            registry.format != 7 ==> final(self)@ == old(self)@,
            registry.format == 7 ==> final(self)@ == (DirectoryView {
                brokers: old(self)@.brokers.insert(
                    endpoint.key(),
                    ObservationView { registry: registry@, seen_at: now },
                ),
                ..old(self)@
            }),
    {
        if registry.format != 7 {
            return ;
        }
        let ghost key = endpoint.key();
        let ghost view = registry@;
        let unchanged = match self.brokers.get(&endpoint) {
            Some(o) => o.registry.same(&registry),
            None => false,
        };
        if unchanged {
            let ghost b = reports(self@.brokers);
            self.brokers.insert(endpoint, Observation { registry, seen_at: now });
            assert(reports(self@.brokers) =~= b);
            assert(self@.brokers =~= old(self)@.brokers.insert(
                key,
                ObservationView { registry: view, seen_at: now },
            ));
            return ;
        }
        self.forget(&endpoint);
        self.add_broker(endpoint, registry, now);
        assert(self@.brokers =~= old(self)@.brokers.insert(
            key,
            ObservationView { registry: view, seen_at: now },
        ));
    }

    /// Takes the head of a broker's report. Returns whether the whole report is
    /// needed: the broker is not known, or has another revision.
    pub fn observe_head(&mut self, endpoint: &BrokerEndpoint, head: &BrokerRegistryHead, now: u128) -> (r:
        bool)
        requires
            old(self).wf(),
        ensures
            final(self).wf(),
            r == (head.format != 7 || !old(self)@.brokers.contains_key(endpoint.key()) || old(
                self,
            )@.brokers[endpoint.key()].registry.revision != head.revision || old(
                self,
            )@.brokers[endpoint.key()].registry.node_id != head.node_id),
            r ==> final(self)@ == old(self)@,
            !r ==> final(self)@ == (DirectoryView {
                brokers: old(self)@.brokers.insert(
                    endpoint.key(),
                    ObservationView {
                        registry: RegistryView {
                            ready: head.ready,
                            publish_ready: head.publish_ready,
                            consume_ready: head.consume_ready,
                            ..old(self)@.brokers[endpoint.key()].registry
                        },
                        seen_at: now,
                    },
                ),
                ..old(self)@
            }),
    {
        if head.format != 7 {
            return true;
        }
        let ghost b = reports(self@.brokers);
        let ghost known = self@.brokers;
        match self.brokers.get(endpoint) {
            None => {
                return true;
            },
            Some(o) => {
                if o.registry.revision != head.revision || o.registry.node_id != head.node_id {
                    return true;
                }
            },
        }
        if let Some(o) = self.brokers.remove(endpoint) {
            let mut registry = o.registry;
            let ghost view = registry@;
            assert(view == known[endpoint.key()].registry);
            self.index.deindex(endpoint, &registry, Ghost(b));
            registry.ready = head.ready;
            registry.publish_ready = head.publish_ready;
            registry.consume_ready = head.consume_ready;
            assert(registry@ == (RegistryView {
                ready: head.ready,
                publish_ready: head.publish_ready,
                consume_ready: head.consume_ready,
                ..view
            }));
            let ghost updated = registry@;
            assert(reports(self@.brokers) =~= b.remove(endpoint.key()));
            self.add_broker(endpoint.duplicate(), registry, now);
            assert(self@.brokers =~= known.insert(
                endpoint.key(),
                ObservationView { registry: updated, seen_at: now },
            ));
        }
        false
    }

    /// Forgets brokers at endpoints that are gone, and those that were not heard
    /// of for too long.
    pub fn expire(&mut self, max_age: u128, now: u128)
        requires
            old(self).wf(),
        ensures
            final(self).wf(),
            final(self)@ == (DirectoryView {
                brokers: old(self)@.brokers.restrict(
                    Set::new(|e: EndpointKey| is_kept(old(self)@, e, max_age, now)),
                ),
                ..old(self)@
            }),
    {
        let mut removed: Vec<BrokerEndpoint> = Vec::new();
        let ghost all = self.brokers.order();
        let ghost kept = Set::new(|e: EndpointKey| is_kept(self@, e, max_age, now));
        let mut i: usize = 0;
        while i < self.brokers.keys.len()
            invariant
                i <= self.brokers.keys@.len(),
                *self == *old(self),
                self.wf(),
                all == self.brokers.order(),
                kept == Set::new(|e: EndpointKey| is_kept(self@, e, max_age, now)),
                forall|j: int|
                    0 <= j < i ==> (ordered::places(removed@).contains(#[trigger] all[j])
                        <==> !kept.contains(all[j])),
                forall|k: EndpointKey| #[trigger]
                    ordered::places(removed@).contains(k) ==> all.contains(k) && !kept.contains(k),
            decreases self.brokers.keys@.len() - i,
        {
            assert(all[i as int] == self.brokers.keys@[i as int].key());
            proof {
                self.brokers.lemma_at(i as int);
                lemma_distinct(all, i as int);
            }
            let seen: u128 = self.brokers.values[i].seen_at;
            let old_age = now > seen && now - seen > max_age;
            assert(self@.brokers[all[i as int]].seen_at == seen);
            if old_age || !self.endpoints.contains(&self.brokers.keys[i]) {
                let k = self.brokers.keys[i].copy();
                let ghost before = removed@;
                removed.push(k);
                proof {
                    lemma_push_place(before, k);
                    assert(all.contains(all[i as int]));
                }
            }
            i += 1;
        }
        self.forget_all(&removed);
        proof {
            let d = old(self)@.brokers;
            assert forall|k: EndpointKey| self@.brokers.contains_key(k) <==> d.restrict(
                kept,
            ).contains_key(k) by {
                if d.contains_key(k) {
                    let p = old(self).brokers.lemma_position(k);
                    assert(all[p] == k);
                }
            }
            assert(self@.brokers =~= d.restrict(kept));
        }
    }

    /// What the brokers of a set reported, as producers.
    fn producers_of(&self, set: &SortedSet<BrokerEndpoint>) -> (r: Vec<Producer>)
        requires
            self.wf(),
            set.wf(),
            forall|e: EndpointKey| #[trigger] set@.contains(e) ==> self@.brokers.contains_key(e),
        ensures
            model::producer_views(r@) == self@.producers_at(set@),
    {
        let ghost order = set.order();
        let ghost regs = registries(self@.brokers, order);
        let mut found: Vec<&BrokerRegistry> = Vec::new();
        let mut i: usize = 0;
        while i < set.map.keys.len()
            invariant
                i <= set.map.keys@.len(),
                self.wf(),
                set.wf(),
                order == set.order(),
                regs == registries(self@.brokers, order),
                forall|e: EndpointKey| #[trigger]
                    set@.contains(e) ==> self@.brokers.contains_key(e),
                found@.map_values(|x: &BrokerRegistry| x@) == regs.take(i as int),
            decreases set.map.keys@.len() - i,
        {
            proof {
                set.map.lemma_at(i as int);
                assert(set@.contains(order[i as int]));
                assert(self@.brokers.contains_key(order[i as int]));
            }
            match self.brokers.get(&set.map.keys[i]) {
                Some(o) => {
                    let ghost before = found@;
                    found.push(&o.registry);
                    proof {
                        assert(found@.map_values(|x: &BrokerRegistry| x@) =~= before.map_values(
                            |x: &BrokerRegistry| x@,
                        ).push(o.registry@));
                        assert(regs[i as int] == o.registry@);
                        assert(regs.take(i + 1) =~= regs.take(i as int).push(regs[i as int]));
                    }
                },
                None => {},
            }
            i += 1;
        }
        proof {
            assert(regs.take(set.map.keys@.len() as int) =~= regs);
            set.map.lemma_keys();
        }
        unique_producers(&found)
    }

    fn publisher_producers(&self) -> (r: Vec<Producer>)
        requires
            self.wf(),
        ensures
            model::producer_views(r@) == self@.publishers(),
    {
        assert(self.index.publishers@ =~= self@.publishing());
        self.producers_of(&self.index.publishers)
    }

    fn consumer_producers(&self) -> (r: Vec<Producer>)
        requires
            self.wf(),
        ensures
            model::producer_views(r@) == self@.consumers(),
    {
        assert(self.index.consumers@ =~= self@.consuming());
        self.producers_of(&self.index.consumers)
    }

    fn broker_producers(&self) -> (r: Vec<Producer>)
        requires
            self.wf(),
        ensures
            model::producer_views(r@) == self@.all(),
    {
        let ghost order = self.brokers.order();
        let ghost regs = registries(self@.brokers, order);
        let mut found: Vec<&BrokerRegistry> = Vec::new();
        let mut i: usize = 0;
        while i < self.brokers.values.len()
            invariant
                i <= self.brokers.values@.len(),
                self.wf(),
                order == self.brokers.order(),
                regs == registries(self@.brokers, order),
                found@.map_values(|x: &BrokerRegistry| x@) == regs.take(i as int),
            decreases self.brokers.values@.len() - i,
        {
            proof {
                self.brokers.lemma_at(i as int);
            }
            let ghost before = found@;
            found.push(&self.brokers.values[i].registry);
            proof {
                assert(found@.map_values(|x: &BrokerRegistry| x@) =~= before.map_values(
                    |x: &BrokerRegistry| x@,
                ).push(self.brokers.values@[i as int].registry@));
                assert(regs.take(i + 1) =~= regs.take(i as int).push(regs[i as int]));
            }
            i += 1;
        }
        proof {
            assert(regs.take(self.brokers.values@.len() as int) =~= regs);
            self.brokers.lemma_keys();
            assert(self@.brokers.dom() =~= self.brokers@.dom());
        }
        unique_producers(&found)
    }

    /// The revision of the routing table: the same for the same content.
    pub fn revision(&self) -> (r: u64)
        requires
            self.wf(),
        ensures
            r == routing_revision(self@),
            r != 0,
    {
        revision_of(&self.publisher_producers(), &self.broker_producers())
    }

    /// The topics that some broker serves, in order.
    pub fn topics(&self) -> (r: Vec<String>)
        requires
            self.wf(),
        ensures
            text::texts(r@) == ordered::listed::<String>(self@.topic_set()),
    {
        proof {
            let m = self.index.topic_owners@;
            assert forall|t: Seq<char>| m.contains_key(t) <==> self@.topic_set().contains(t) by {
                if m.contains_key(t) {
                    let e = choose|e: EndpointKey| m[t]@.contains(e);
                    assert(index::owns(m, t, e));
                }
                if self@.topic_set().contains(t) {
                    let e = choose|e: EndpointKey| index::serves(reports(self@.brokers), t, e);
                    assert(index::owns(m, t, e));
                }
            }
            assert(m.dom() =~= self@.topic_set());
            self.index.topic_owners.lemma_keys();
        }
        copy_keys(&self.index.topic_owners.keys)
    }

    /// The channels of a topic that some broker serves, in order.
    pub fn channels(&self, topic: &str) -> (r: Vec<String>)
        requires
            self.wf(),
        ensures
            text::texts(r@) == ordered::listed::<String>(self@.channel_set(topic@)),
    {
        let name = topic.to_owned();
        match self.index.channel_owners.get(&name) {
            Some(o) => {
                proof {
                    let m = self.index.channel_owners@;
                    let t = topic@;
                    assert(index::sound(m[t]));
                    assert forall|c: Seq<char>| o@.contains_key(c) <==> self@.channel_set(
                        t,
                    ).contains(c) by {
                        if o@.contains_key(c) {
                            let e = choose|e: EndpointKey| o@[c]@.contains(e);
                            assert(index::lists(m, t, c, e));
                        }
                        if self@.channel_set(t).contains(c) {
                            let e = choose|e: EndpointKey|
                                index::serves_channel(reports(self@.brokers), t, c, e);
                            assert(index::lists(m, t, c, e));
                        }
                    }
                    assert(o@.dom() =~= self@.channel_set(t));
                    o.lemma_keys();
                }
                copy_keys(&o.keys)
            },
            None => {
                let r: Vec<String> = Vec::new();
                proof {
                    let m = self.index.channel_owners@;
                    let t = topic@;
                    assert forall|c: Seq<char>| !self@.channel_set(t).contains(c) by {
                        if self@.channel_set(t).contains(c) {
                            let e = choose|e: EndpointKey|
                                index::serves_channel(reports(self@.brokers), t, c, e);
                            assert(index::lists(m, t, c, e));
                        }
                    }
                    let empty = Seq::<Seq<char>>::empty();
                    assert(ordered::is_listing::<String>(self@.channel_set(t), empty));
                    ordered::lemma_listed::<String>(self@.channel_set(t), empty);
                    assert(text::texts(r@) =~= empty);
                }
                r
            },
        }
    }

    /// The brokers that serve a topic, or any consumer, as producers. Where
    /// cleanup is announced, they have the port for it.
    pub fn producers(&self, topic: Option<&str>) -> (r: Vec<Producer>)
        requires
            self.wf(),
        ensures
            model::producer_views(r@) == with_cleanup_port(
                self@.kodo_cleanup_enabled,
                match topic {
                    Some(t) => self@.producers_at(self@.serving(t@)),
                    None => self@.consumers(),
                },
            ),
    {
        let mut v = match topic {
            Some(t) => {
                let name = t.to_owned();
                match self.index.topic_owners.get(&name) {
                    Some(set) => {
                        proof {
                            let m = self.index.topic_owners@;
                            assert forall|e: EndpointKey| set@.contains(e) <==> self@.serving(
                                t@,
                            ).contains(e) by {
                                assert(index::owns(m, t@, e) <==> set@.contains(e));
                            }
                            assert(set@ =~= self@.serving(t@));
                        }
                        self.producers_of(set)
                    },
                    None => {
                        let none: Vec<Producer> = Vec::new();
                        proof {
                            let m = self.index.topic_owners@;
                            assert forall|e: EndpointKey| !self@.serving(t@).contains(e) by {
                                if self@.serving(t@).contains(e) {
                                    assert(index::owns(m, t@, e));
                                }
                            }
                            let empty = Seq::<EndpointKey>::empty();
                            assert(ordered::is_listing::<BrokerEndpoint>(
                                self@.serving(t@),
                                empty,
                            ));
                            ordered::lemma_listed::<BrokerEndpoint>(self@.serving(t@), empty);
                            assert(registries(self@.brokers, empty) =~= Seq::empty());
                            assert(model::producer_views(none@) =~= Seq::empty());
                        }
                        none
                    },
                }
            },
            None => self.consumer_producers(),
        };
        let ghost before = model::producer_views(v@);
        if self.kodo_cleanup_enabled {
            let mut i: usize = 0;
            while i < v.len()
                invariant
                    i <= v@.len() == before.len(),
                    forall|j: int|
                        0 <= j < i ==> (#[trigger] v@[j])@ == (ProducerView {
                            http_port: 4152,
                            ..before[j]
                        }),
                    forall|j: int| i <= j < v@.len() ==> (#[trigger] v@[j])@ == before[j],
                decreases v@.len() - i,
            {
                let mut p = v[i].duplicate();
                p.http_port = 4152;
                v.set(i, p);
                i += 1;
            }
            assert(model::producer_views(v@) =~= with_cleanup_port(true, before));
        }
        v
    }

    /// The brokers that can be published to.
    pub fn publishers(&self) -> (r: Vec<Producer>)
        requires
            self.wf(),
        ensures
            model::producer_views(r@) == self@.publishers(),
    {
        self.publisher_producers()
    }

    /// All brokers.
    pub fn brokers(&self) -> (r: Vec<Producer>)
        requires
            self.wf(),
        ensures
            model::producer_views(r@) == self@.all(),
    {
        self.broker_producers()
    }

    /// The brokers that can be published to, with the revision of the routing
    /// table.
    pub fn publisher_snapshot(&self) -> (r: (u64, Vec<Producer>))
        requires
            self.wf(),
        ensures
            r.0 == routing_revision(self@),
            model::producer_views(r.1@) == self@.publishers(),
    {
        (self.revision(), self.publisher_producers())
    }

    /// All brokers, with the revision of the routing table.
    pub fn broker_snapshot(&self) -> (r: (u64, Vec<Producer>))
        requires
            self.wf(),
        ensures
            r.0 == routing_revision(self@),
            model::producer_views(r.1@) == self@.all(),
    {
        (self.revision(), self.broker_producers())
    }

    /// The revision of the routing table, and how many brokers can be published
    /// to.
    pub fn publisher_head(&self) -> (r: (u64, usize))
        requires
            self.wf(),
        ensures
            r.0 == routing_revision(self@),
            r.1 == self@.publishers().len(),
    {
        (self.revision(), self.publisher_count())
    }

    /// What producers connect to: the gateways where Kodo is served, else the
    /// brokers that can be published to.
    pub fn node_producers(&self) -> (r: Vec<Producer>)
        requires
            self.wf(),
        ensures
            model::producer_views(r@) == if self@.kodo_compatibility_enabled {
                self@.kodo_gateways
            } else {
                self@.publishers()
            },
    {
        if self.kodo_compatibility_enabled {
            copy_producers(&self.kodo_gateways)
        } else {
            self.publisher_producers()
        }
    }

    /// Whether producers have something to connect to.
    pub fn kodo_nodes_ready(&self) -> (r: bool)
        ensures
            r == (!self@.kodo_compatibility_enabled || self@.kodo_gateways.len() > 0),
    {
        assert(self@.kodo_gateways.len() == self.kodo_gateways@.len());
        !self.kodo_compatibility_enabled || self.kodo_gateways.len() > 0
    }

    /// Whether cleanup is announced.
    pub fn kodo_cleanup_enabled(&self) -> (r: bool)
        ensures
            r == self@.kodo_cleanup_enabled,
    {
        self.kodo_cleanup_enabled
    }

    /// How many nodes serve consumers.
    pub fn broker_count(&self) -> (r: usize)
        requires
            self.wf(),
        ensures
            r == self@.consumers().len(),
    {
        let v = self.consumer_producers();
        assert(model::producer_views(v@).len() == v@.len());
        v.len()
    }

    /// How many nodes can be published to.
    pub fn publisher_count(&self) -> (r: usize)
        requires
            self.wf(),
        ensures
            r == self@.publishers().len(),
    {
        let v = self.publisher_producers();
        assert(model::producer_views(v@).len() == v@.len());
        v.len()
    }
}

/// Producers with the port for cleanup, where it is announced.
pub open spec fn with_cleanup_port(enabled: bool, v: Seq<ProducerView>) -> Seq<ProducerView> {
    if enabled {
        v.map_values(|p: ProducerView| ProducerView { http_port: 4152, ..p })
    } else {
        v
    }
}

proof fn lemma_distinct(all: Seq<EndpointKey>, i: int)
    requires
        ordered::increasing::<BrokerEndpoint>(all),
        0 <= i < all.len(),
    ensures
        forall|j: int| 0 <= j < all.len() && j != i ==> #[trigger] all[j] != all[i],
{
    assert forall|j: int| 0 <= j < all.len() && j != i implies #[trigger] all[j] != all[i] by {
        BrokerEndpoint::order(all[i], all[i], all[i]);
        if j < i {
            assert(BrokerEndpoint::before(all[j], all[i]));
        } else {
            assert(BrokerEndpoint::before(all[i], all[j]));
        }
    }
}

proof fn lemma_push_contains(a: Seq<EndpointKey>, x: EndpointKey, k: EndpointKey)
    ensures
        a.push(x).contains(k) <==> a.contains(k) || k == x,
{
    let b = a.push(x);
    if a.contains(k) {
        let i = choose|i: int| 0 <= i < a.len() && a[i] == k;
        assert(b[i] == k);
    }
    assert(b[a.len() as int] == x);
    if b.contains(k) && k != x {
        let i = choose|i: int| 0 <= i < b.len() && b[i] == k;
        assert(a[i] == k);
    }
}

proof fn lemma_push_place(v: Seq<BrokerEndpoint>, x: BrokerEndpoint)
    ensures
        forall|k: EndpointKey| #[trigger]
            ordered::places(v.push(x)).contains(k) <==> ordered::places(v).contains(k) || k
                == x.key(),
{
    assert(ordered::places(v.push(x)) =~= ordered::places(v).push(x.key()));
    assert forall|k: EndpointKey| #[trigger]
        ordered::places(v.push(x)).contains(k) <==> ordered::places(v).contains(k) || k
            == x.key() by {
        lemma_push_contains(ordered::places(v), x.key(), k);
    }
}

// Laws.

proof fn lemma_insert_keeps_order(v: Seq<ProducerView>, p: ProducerView)
    requires
        nodes_increase(v),
        !has_node(v, p.node_id),
    ensures
        nodes_increase(insert_producer(v, p)),
        forall|id: u64| #[trigger]
            has_node(insert_producer(v, p), id) <==> has_node(v, id) || id == p.node_id,
    decreases v.len(),
{
    let r = insert_producer(v, p);
    if v.len() > 0 && p.node_id < v.last().node_id {
        let d = v.drop_last();
        assert(nodes_increase(d)) by {
            assert forall|i: int, j: int| 0 <= i < j < d.len() implies (#[trigger] d[i]).node_id
                < (#[trigger] d[j]).node_id by {
                assert(v[i].node_id < v[j].node_id);
            }
        }
        assert(!has_node(d, p.node_id)) by {
            if has_node(d, p.node_id) {
                let i = choose|i: int| 0 <= i < d.len() && (#[trigger] d[i]).node_id == p.node_id;
                assert(v[i].node_id == p.node_id);
            }
        }
        lemma_insert_keeps_order(d, p);
        let q = insert_producer(d, p);
        assert forall|i: int, j: int| 0 <= i < j < r.len() implies (#[trigger] r[i]).node_id < (
        #[trigger] r[j]).node_id by {
            if j < q.len() {
                assert(q[i].node_id < q[j].node_id);
            } else {
                assert(has_node(q, q[i].node_id));
                if q[i].node_id != p.node_id {
                    let w = choose|w: int|
                        0 <= w < d.len() && (#[trigger] d[w]).node_id == q[i].node_id;
                    assert(v[w].node_id < v[v.len() - 1].node_id);
                }
            }
        }
        assert forall|id: u64| #[trigger] has_node(r, id) <==> has_node(v, id) || id
            == p.node_id by {
            if has_node(r, id) {
                let i = choose|i: int| 0 <= i < r.len() && (#[trigger] r[i]).node_id == id;
                if i < q.len() {
                    assert(q[i].node_id == id);
                    assert(has_node(q, id));
                    if id != p.node_id {
                        let w = choose|w: int| 0 <= w < d.len() && (#[trigger] d[w]).node_id == id;
                        assert(v[w].node_id == id);
                    }
                } else {
                    assert(v[v.len() - 1].node_id == id);
                }
            }
            if has_node(v, id) {
                let w = choose|w: int| 0 <= w < v.len() && (#[trigger] v[w]).node_id == id;
                if w < d.len() {
                    assert(d[w].node_id == id);
                    assert(has_node(d, id));
                    assert(has_node(q, id));
                    let i = choose|i: int| 0 <= i < q.len() && (#[trigger] q[i]).node_id == id;
                    assert(r[i].node_id == id);
                } else {
                    assert(r[q.len() as int].node_id == id);
                }
            }
            if id == p.node_id {
                assert(has_node(q, id));
                let i = choose|i: int| 0 <= i < q.len() && (#[trigger] q[i]).node_id == id;
                assert(r[i].node_id == id);
            }
        }
    } else {
        assert forall|i: int, j: int| 0 <= i < j < r.len() implies (#[trigger] r[i]).node_id < (
        #[trigger] r[j]).node_id by {
            if j == v.len() {
                assert(v[i].node_id <= v.last().node_id) by {
                    if i < v.len() - 1 {
                        assert(v[i].node_id < v[v.len() - 1].node_id);
                    }
                }
                assert(has_node(v, v.last().node_id)) by {
                    assert(v[v.len() - 1].node_id == v.last().node_id);
                }
            } else {
                assert(v[i].node_id < v[j].node_id);
            }
        }
        assert forall|id: u64| #[trigger] has_node(r, id) <==> has_node(v, id) || id
            == p.node_id by {
            if has_node(r, id) {
                let i = choose|i: int| 0 <= i < r.len() && (#[trigger] r[i]).node_id == id;
                if i < v.len() {
                    assert(v[i].node_id == id);
                }
            }
            if has_node(v, id) {
                let i = choose|i: int| 0 <= i < v.len() && (#[trigger] v[i]).node_id == id;
                assert(r[i].node_id == id);
            }
            assert(r[v.len() as int].node_id == p.node_id);
        }
    }
}

/// Whether node IDs increase.
pub open spec fn nodes_increase(v: Seq<ProducerView>) -> bool {
    forall|i: int, j: int|
        0 <= i < j < v.len() ==> (#[trigger] v[i]).node_id < (#[trigger] v[j]).node_id
}

/// However many endpoints report a node, it is published once, and nodes are
/// published in the order of their IDs.
pub proof fn law_each_node_is_published_once(r: Seq<RegistryView>)
    ensures
        nodes_increase(unique(r)),
        forall|i: int| 0 <= i < r.len() ==> has_node(unique(r), (#[trigger] r[i]).node_id),
    decreases r.len(),
{
    if r.len() > 0 {
        let d = r.drop_last();
        law_each_node_is_published_once(d);
        let u = unique(d);
        if !has_node(u, r.last().node_id) {
            lemma_insert_keeps_order(u, model::published(r.last()));
        }
        assert forall|i: int| 0 <= i < r.len() implies has_node(
            unique(r),
            (#[trigger] r[i]).node_id,
        ) by {
            if i < d.len() {
                assert(d[i] == r[i]);
                assert(has_node(u, d[i].node_id));
            }
        }
    }
}

/// What is published depends on what the brokers report alone: neither on when
/// they were heard of, nor on the endpoints that are expected.
pub proof fn law_routing_depends_on_reports_alone(a: Directory, b: Directory)
    requires
        a.wf(),
        b.wf(),
        reports(a@.brokers) == reports(b@.brokers),
    ensures
        a@.publishers() == b@.publishers(),
        a@.all() == b@.all(),
        a@.consumers() == b@.consumers(),
        a@.topic_set() == b@.topic_set(),
        routing_revision(a@) == routing_revision(b@),
{
    let ra = reports(a@.brokers);
    let rb = reports(b@.brokers);
    assert(a@.brokers.dom() =~= ra.dom());
    assert(b@.brokers.dom() =~= rb.dom());
    assert forall|e: EndpointKey| a@.brokers.contains_key(e) implies a@.brokers[e].registry
        == b@.brokers[e].registry by {
        assert(ra[e] == a@.brokers[e].registry);
        assert(rb[e] == b@.brokers[e].registry);
    }
    assert(a@.publishing() =~= b@.publishing());
    assert(a@.consuming() =~= b@.consuming());
    assert(a@.topic_set() =~= b@.topic_set());
    assert(a.index.publishers@ =~= a@.publishing());
    assert(a.index.consumers@ =~= a@.consuming());
    assert(a.brokers@.dom() =~= a@.brokers.dom());
    lemma_same_registries(a@, b@, a@.publishing(), a.index.publishers.order());
    lemma_same_registries(a@, b@, a@.consuming(), a.index.consumers.order());
    lemma_same_registries(a@, b@, a@.brokers.dom(), a.brokers.order());
}

proof fn lemma_same_registries(
    a: DirectoryView,
    b: DirectoryView,
    d: Set<EndpointKey>,
    s: Seq<EndpointKey>,
)
    requires
        reports(a.brokers) == reports(b.brokers),
        ordered::is_listing::<BrokerEndpoint>(d, s),
        forall|e: EndpointKey| #[trigger] d.contains(e) ==> a.brokers.contains_key(e),
    ensures
        a.producers_at(d) == b.producers_at(d),
{
    let ra = reports(a.brokers);
    let rb = reports(b.brokers);
    assert(a.brokers.dom() =~= ra.dom());
    assert(b.brokers.dom() =~= rb.dom());
    ordered::lemma_listed::<BrokerEndpoint>(d, s);
    assert forall|i: int| 0 <= i < s.len() implies registries(a.brokers, s)[i] == registries(
        b.brokers,
        s,
    )[i] by {
        assert(s.contains(s[i]));
        assert(d.contains(s[i]));
        assert(ra[s[i]] == a.brokers[s[i]].registry);
        assert(rb[s[i]] == b.brokers[s[i]].registry);
    }
    assert(registries(a.brokers, s) =~= registries(b.brokers, s));
}

/// Whether a producer tells of a broker what the broker reports: its node, and where it is
/// reached.
pub open spec fn tells(p: ProducerView, r: RegistryView) -> bool {
    &&& p.node_id == r.node_id
    &&& p.broadcast_address == r.broadcast_address
    &&& p.hostname == r.broadcast_address
    &&& p.remote_address == r.broadcast_address + ":"@ + text::dec(r.tcp_port as nat)
    &&& p.tcp_port == r.tcp_port
    &&& p.http_port == r.http_port
}

proof fn lemma_inserted(v: Seq<ProducerView>, p: ProducerView, k: int)
    requires
        0 <= k < insert_producer(v, p).len(),
    ensures
        insert_producer(v, p)[k] == p || v.contains(insert_producer(v, p)[k]),
    decreases v.len(),
{
    let r = insert_producer(v, p);
    if v.len() > 0 && p.node_id < v.last().node_id {
        let d = v.drop_last();
        let b = insert_producer(d, p);
        if k < b.len() {
            lemma_inserted(d, p, k);
            if d.contains(r[k]) {
                let w = d.index_of(r[k]);
                assert(v[w] == r[k]);
            }
        } else {
            assert(v[v.len() - 1] == r[k]);
        }
    } else if k < v.len() {
        assert(v[k] == r[k]);
    }
}

proof fn lemma_unique_tells(r: Seq<RegistryView>, k: int) -> (i: int)
    requires
        0 <= k < unique(r).len(),
    ensures
        0 <= i < r.len(),
        tells(unique(r)[k], r[i]),
    decreases r.len(),
{
    let d = r.drop_last();
    let u = unique(d);
    if has_node(u, r.last().node_id) {
        lemma_unique_tells(d, k)
    } else {
        lemma_inserted(u, model::published(r.last()), k);
        if unique(r)[k] == model::published(r.last()) {
            r.len() - 1
        } else {
            let w = u.index_of(unique(r)[k]);
            lemma_unique_tells(d, w)
        }
    }
}

/// The producers at some endpoints are the brokers that were heard of there: each of them tells
/// of one, each of them has a producer, and none has two.
pub proof fn law_producers_are_the_brokers_that_report(directory: Directory, d: Set<EndpointKey>)
    requires
        directory.wf(),
        forall|e: EndpointKey| #[trigger] d.contains(e) ==> directory@.brokers.contains_key(e),
    ensures
        nodes_increase(directory@.producers_at(d)),
        forall|k: int|
            0 <= k < directory@.producers_at(d).len() ==> exists|e: EndpointKey|
                d.contains(e) && tells(
                    #[trigger] directory@.producers_at(d)[k],
                    (#[trigger] directory@.brokers[e]).registry,
                ),
        forall|e: EndpointKey| #[trigger]
            d.contains(e) ==> has_node(
                directory@.producers_at(d),
                directory@.brokers[e].registry.node_id,
            ),
{
    let b = directory@.brokers;
    assert(directory.brokers@.dom() =~= b.dom());
    assert forall|e: EndpointKey| #[trigger] d.contains(e) implies directory.brokers.order().contains(
        e,
    ) by {
        assert(directory.brokers@.contains_key(e));
        let i = directory.brokers.lemma_position(e);
        assert(directory.brokers.order()[i] == e);
    }
    let s = ordered::lemma_part_listed::<BrokerEndpoint>(directory.brokers.order(), d);
    let r = registries(b, s);
    law_each_node_is_published_once(r);
    let v = directory@.producers_at(d);
    assert(v == unique(r));
    assert forall|k: int| 0 <= k < v.len() implies exists|e: EndpointKey|
        d.contains(e) && tells(#[trigger] v[k], (#[trigger] b[e]).registry) by {
        let i = lemma_unique_tells(r, k);
        assert(s.contains(s[i]));
        assert(d.contains(s[i]));
        assert(tells(v[k], b[s[i]].registry));
    }
    assert forall|e: EndpointKey| #[trigger] d.contains(e) implies has_node(
        v,
        b[e].registry.node_id,
    ) by {
        assert(s.contains(e));
        let i = s.index_of(e);
        assert(r[i].node_id == b[e].registry.node_id);
    }
}

/// The topics that are told are those that some broker serves to consumers.
pub proof fn lemma_topics_listed(directory: Directory)
    requires
        directory.wf(),
    ensures
        ordered::is_listing::<String>(
            directory@.topic_set(),
            ordered::listed::<String>(directory@.topic_set()),
        ),
{
    let m = directory.index.topic_owners@;
    let set = directory@.topic_set();
    assert forall|t: Seq<char>| m.contains_key(t) <==> set.contains(t) by {
        if m.contains_key(t) {
            let e = choose|e: EndpointKey| m[t]@.contains(e);
            assert(index::owns(m, t, e));
        }
        if set.contains(t) {
            let e = choose|e: EndpointKey| index::serves(reports(directory@.brokers), t, e);
            assert(index::owns(m, t, e));
        }
    }
    assert(m.dom() =~= set);
    directory.index.topic_owners.lemma_keys();
}

/// The channels that are told of a topic are those that some broker serves to consumers.
pub proof fn lemma_channels_listed(directory: Directory, t: Seq<char>)
    requires
        directory.wf(),
    ensures
        ordered::is_listing::<String>(
            directory@.channel_set(t),
            ordered::listed::<String>(directory@.channel_set(t)),
        ),
{
    let m = directory.index.channel_owners@;
    let set = directory@.channel_set(t);
    if m.contains_key(t) {
        let o = m[t];
        assert(index::sound(o));
        assert forall|c: Seq<char>| o@.contains_key(c) <==> set.contains(c) by {
            if o@.contains_key(c) {
                let e = choose|e: EndpointKey| o@[c]@.contains(e);
                assert(index::lists(m, t, c, e));
            }
            if set.contains(c) {
                let e = choose|e: EndpointKey|
                    index::serves_channel(reports(directory@.brokers), t, c, e);
                assert(index::lists(m, t, c, e));
            }
        }
        assert(o@.dom() =~= set);
        o.lemma_keys();
    } else {
        assert forall|c: Seq<char>| !set.contains(c) by {
            if set.contains(c) {
                let e = choose|e: EndpointKey|
                    index::serves_channel(reports(directory@.brokers), t, c, e);
                assert(index::lists(m, t, c, e));
            }
        }
        let empty = Seq::<Seq<char>>::empty();
        assert(ordered::is_listing::<String>(set, empty));
        ordered::lemma_listed::<String>(set, empty);
    }
}

/// A broker is forgotten exactly where its endpoint is gone or it has not been seen for longer
/// than it may.
pub proof fn law_brokers_are_kept_while_they_are_seen(
    d: DirectoryView,
    e: EndpointKey,
    max_age: u128,
    now: u128,
)
    ensures
        is_kept(d, e, max_age, now) <==> d.endpoints.contains(e) && now <= d.brokers[e].seen_at
            + max_age,
{
}

/// What Discovery tells is fresh exactly where its source has answered and not too long ago.
pub proof fn law_discovery_is_fresh_after_an_answer(d: DirectoryView, now: u128)
    ensures
        d.is_fresh(now) <==> d.last_source_success is Some && d.source_stale_after is Some && now
            <= d.last_source_success->0 + d.source_stale_after->0,
{
}

/// Lookups are answered from fresh knowledge alone, and for Kodo only with three gateways and
/// three brokers, one for each.
pub proof fn law_lookups_need_fresh_knowledge(d: Directory, now: u128, r: bool)
    requires
        d.wf(),
        call_ensures(Directory::lookup_ready, (&d, now), r),
    ensures
        r ==> d@.last_source_success is Some && d@.source_stale_after is Some && now
            <= d@.last_source_success->0 + d@.source_stale_after->0,
        r && d@.kodo_compatibility_enabled ==> d@.kodo_gateways.len() == 3 && d@.consumers().len()
            == 3,
        !d@.kodo_compatibility_enabled && d@.is_fresh(now) ==> r,
{
}

/// Three brokers complete the shards exactly where each has another turn among three.
pub proof fn law_shards_are_complete_with_three_turns(v: Seq<ProducerView>, turn: int)
    requires
        shards_complete(v),
        0 <= turn < 3,
    ensures
        v.len() == 3,
        exists|i: int|
            0 <= i < 3 && (#[trigger] v[i]).node_id > 0 && (v[i].node_id - 1) % 3 == turn,
{
    assert(shard(v[0].node_id) == turn || shard(v[1].node_id) == turn || shard(v[2].node_id)
        == turn);
    if shard(v[0].node_id) == turn {
        assert(v[0].node_id > 0);
    } else if shard(v[1].node_id) == turn {
        assert(v[1].node_id > 0);
    } else {
        assert(v[2].node_id > 0);
    }
}

/// Nodes are the gateways where Kodo is served, else the brokers that can be published to.
pub proof fn law_nodes_are_gateways_for_kodo(d: Directory, r: Vec<Producer>)
    requires
        d.wf(),
        call_ensures(Directory::node_producers, (&d,), r),
    ensures
        d@.kodo_compatibility_enabled ==> model::producer_views(r@) == d@.kodo_gateways,
        !d@.kodo_compatibility_enabled ==> model::producer_views(r@) == d@.publishers(),
{
}

/// Where channels are cleaned up the producers are named with the port for that, and are else
/// the same.
pub proof fn law_cleanup_changes_the_port_alone(enabled: bool, v: Seq<ProducerView>, i: int)
    requires
        0 <= i < v.len(),
    ensures
        ({
            let r = with_cleanup_port(enabled, v);
            &&& r.len() == v.len()
            &&& !enabled ==> r == v
            &&& enabled ==> r[i].http_port == 4152
            &&& r[i].node_id == v[i].node_id && r[i].broadcast_address == v[i].broadcast_address
                && r[i].tcp_port == v[i].tcp_port && r[i].hostname == v[i].hostname
                && r[i].remote_address == v[i].remote_address
        }),
{
}

/// The sets that are read from are told by what the brokers report.
pub proof fn law_sets_of_brokers_go_by_their_reports(d: DirectoryView, e: EndpointKey, t: Seq<char>)
    ensures
        d.publishing().contains(e) <==> d.brokers.contains_key(e)
            && d.brokers[e].registry.publish_ready,
        d.consuming().contains(e) <==> d.brokers.contains_key(e) && (
        d.brokers[e].registry.consume_ready || d.brokers[e].registry.ready),
        d.serving(t).contains(e) ==> d.consuming().contains(e),
{
}

/// A broker that is seen is known from then on as it reports itself, unless it speaks of data in
/// another format; no other broker changes.
pub proof fn law_brokers_are_known_as_they_report(
    endpoint: BrokerEndpoint,
    registry: BrokerRegistry,
    now: u128,
    e: EndpointKey,
)
    ensures
        forall|d: &mut Directory| #[trigger]
            call_ensures(Directory::observe, (d, endpoint, registry, now), ()) ==> {
                &&& registry.format == 7 ==> final(d)@.brokers.contains_key(endpoint.key())
                    && final(d)@.brokers[endpoint.key()].registry == registry@
                    && final(d)@.brokers[endpoint.key()].seen_at == now
                &&& registry.format != 7 ==> final(d)@.brokers == d@.brokers
                &&& e != endpoint.key() ==> final(d)@.brokers.contains_key(e)
                    == d@.brokers.contains_key(e) && final(d)@.brokers[e] == d@.brokers[e]
                &&& final(d)@.endpoints == d@.endpoints
                &&& final(d)@.last_source_success == d@.last_source_success
            },
{
}

/// A short answer will do exactly where the broker is known at the revision and under the number
/// that it tells; then its readiness is that of the answer and it counts as seen.
pub proof fn law_short_answers_will_do_for_known_revisions(
    endpoint: BrokerEndpoint,
    head: BrokerRegistryHead,
    now: u128,
    r: bool,
    e: EndpointKey,
)
    ensures
        forall|d: &mut Directory| #[trigger]
            call_ensures(Directory::observe_head, (d, &endpoint, &head, now), r) ==> ({
                let k = endpoint.key();
                let same = head.format == 7 && d@.brokers.contains_key(k)
                    && d@.brokers[k].registry.revision == head.revision
                    && d@.brokers[k].registry.node_id == head.node_id;
                &&& r <==> !same
                &&& r ==> final(d)@.brokers == d@.brokers
                &&& !r ==> ({
                    let after = final(d)@.brokers[k];
                    &&& after.seen_at == now
                    &&& after.registry.publish_ready == head.publish_ready
                    &&& after.registry.consume_ready == head.consume_ready
                    &&& after.registry.ready == head.ready
                    &&& after.registry.topics == d@.brokers[k].registry.topics
                    &&& after.registry.revision == d@.brokers[k].registry.revision
                })
                &&& e != k ==> final(d)@.brokers.contains_key(e) == d@.brokers.contains_key(e)
                    && final(d)@.brokers[e] == d@.brokers[e]
            }),
{
}

/// Brokers leave with their endpoint or when they were not seen for too long, and no sooner; what
/// is known of the others stays.
pub proof fn law_brokers_leave_with_their_endpoint_or_their_age(
    endpoints: SortedSet<BrokerEndpoint>,
    age: u128,
    now: u128,
    e: EndpointKey,
)
    ensures
        forall|d: &mut Directory| #[trigger]
            call_ensures(Directory::expire, (d, age, now), ()) ==> {
                &&& final(d)@.brokers.contains_key(e) <==> d@.brokers.contains_key(e)
                    && d@.endpoints.contains(e) && now <= d@.brokers[e].seen_at + age
                &&& final(d)@.brokers.contains_key(e) ==> final(d)@.brokers[e] == d@.brokers[e]
                &&& final(d)@.endpoints == d@.endpoints
            },
        forall|d: &mut Directory| #[trigger]
            call_ensures(Directory::replace_endpoints, (d, endpoints), ()) ==> {
                &&& final(d)@.endpoints == endpoints@
                &&& final(d)@.brokers.contains_key(e) <==> d@.brokers.contains_key(e)
                    && endpoints@.contains(e)
                &&& final(d)@.brokers.contains_key(e) ==> final(d)@.brokers[e] == d@.brokers[e]
            },
{
}

/// Settings and answers of the source are remembered, and change nothing of the brokers.
pub proof fn law_settings_change_no_broker(
    gateways: Vec<Producer>,
    cleanup: bool,
    stale_after: u128,
    now: u128,
)
    ensures
        forall|d: &mut Directory| #[trigger]
            call_ensures(Directory::configure_kodo, (d, gateways, cleanup), ())
                ==> final(d)@.kodo_compatibility_enabled && final(d)@.kodo_gateways
                == model::producer_views(gateways@) && final(d)@.kodo_cleanup_enabled == cleanup
                && final(d)@.brokers == d@.brokers && final(d)@.endpoints == d@.endpoints,
        forall|d: &mut Directory| #[trigger]
            call_ensures(Directory::configure_source_health, (d, stale_after), ())
                ==> final(d)@.source_stale_after == Some(stale_after) && final(d)@.brokers
                == d@.brokers && final(d)@.last_source_success == d@.last_source_success,
        forall|d: &mut Directory| #[trigger]
            call_ensures(Directory::mark_source_success, (d, now), ())
                ==> final(d)@.last_source_success == Some(now) && final(d)@.brokers == d@.brokers
                && final(d)@.source_stale_after == d@.source_stale_after,
{
}

} // verus!
