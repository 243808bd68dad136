//! What Discovery answers.
use crate::discovery::directory::{self, Directory, DirectoryView};
use crate::discovery::index;
use crate::discovery::model::{self, EndpointKey, Producer, ProducerView};
use crate::json::{self, Doc, Items, JsonView};
use crate::ordered;
use crate::text;
use serde_json::Value;
use vstd::prelude::*;
use vstd::string::*;

verus! {

/// What is asked.
pub enum Query<'a> {
    Info,
    Lookup(&'a str),
    Topics,
    Channels(&'a str),
    Nodes,
    PublishersHead,
    Publishers,
    Brokers,
    Health,
}

/// A status code and a document.
pub struct Reply {
    pub status: u16,
    pub body: Value,
}

/// A producer, as a document.
#[verifier::opaque]
pub open spec fn producer_json(p: ProducerView) -> JsonView {
    JsonView::object().text("remote_address"@, p.remote_address).text("hostname"@, p.hostname).text(
        "broadcast_address"@,
        p.broadcast_address,
    ).number("tcp_port"@, p.tcp_port as int).number("http_port"@, p.http_port as int).text(
        "version"@,
        p.version,
    ).number("node_id"@, p.node_id as int)
}

/// Producers, as documents.
pub open spec fn producers_json(v: Seq<ProducerView>) -> Seq<JsonView> {
    v.map_values(|p: ProducerView| producer_json(p))
}

/// Texts, as documents.
pub open spec fn texts_json(v: Seq<Seq<char>>) -> Seq<JsonView> {
    v.map_values(|s: Seq<char>| JsonView::Text(s))
}

fn producer_doc(p: &Producer) -> (r: Doc)
    ensures
        r@ == producer_json(p@),
        r@ is Object,
{
    reveal(producer_json);
    Doc::new().text("remote_address", p.remote_address.as_str()).text(
        "hostname",
        p.hostname.as_str(),
    ).text("broadcast_address", p.broadcast_address.as_str()).number(
        "tcp_port",
        p.tcp_port as i64,
    ).number("http_port", p.http_port as i64).text("version", p.version.as_str()).count(
        "node_id",
        p.node_id,
    )
}

fn producer_list(v: &Vec<Producer>) -> (r: Vec<Value>)
    ensures
        json::all_held(r@) == producers_json(model::producer_views(v@)),
{
    let mut items = Items::new();
    let mut i: usize = 0;
    while i < v.len()
        invariant
            i <= v@.len(),
            items@ == producers_json(model::producer_views(v@)).take(i as int),
        decreases v@.len() - i,
    {
        items = items.doc(producer_doc(&v[i]));
        i += 1;
        proof {
            let all = producers_json(model::producer_views(v@));
            assert(all.take(i as int) =~= all.take(i - 1).push(all[i - 1]));
        }
    }
    proof {
        let all = producers_json(model::producer_views(v@));
        assert(all.take(v@.len() as int) =~= all);
    }
    items.done()
}

fn text_items(v: &Vec<String>) -> (r: Vec<Value>)
    ensures
        json::all_held(r@) == texts_json(text::texts(v@)),
{
    let mut items = Items::new();
    let mut i: usize = 0;
    while i < v.len()
        invariant
            i <= v@.len(),
            items@ == texts_json(text::texts(v@)).take(i as int),
        decreases v@.len() - i,
    {
        items = items.text(v[i].as_str());
        i += 1;
        proof {
            let all = texts_json(text::texts(v@));
            assert(all.take(i as int) =~= all.take(i - 1).push(all[i - 1]));
        }
    }
    proof {
        let all = texts_json(text::texts(v@));
        assert(all.take(v@.len() as int) =~= all);
    }
    items.done()
}

/// The topics that are served, in order.
pub open spec fn topics_of(d: DirectoryView) -> Seq<Seq<char>> {
    ordered::listed::<String>(d.topic_set())
}

/// The channels of a topic that are served, in order.
pub open spec fn channels_of(d: DirectoryView, topic: Seq<char>) -> Seq<Seq<char>> {
    ordered::listed::<String>(d.channel_set(topic))
}

/// The brokers that serve a topic.
pub open spec fn lookup_producers(d: DirectoryView, topic: Seq<char>) -> Seq<ProducerView> {
    directory::with_cleanup_port(d.kodo_cleanup_enabled, d.producers_at(d.serving(topic)))
}

/// What producers connect to.
pub open spec fn nodes_of(d: DirectoryView) -> Seq<ProducerView> {
    if d.kodo_compatibility_enabled {
        d.kodo_gateways
    } else {
        d.publishers()
    }
}

/// Whether a query needs sources that were heard of lately.
pub open spec fn needs_source(q: Query<'_>) -> bool {
    !(q is Info) && !(q is Health)
}

/// Whether lookups are complete.
pub open spec fn is_complete(d: DirectoryView, now: u128) -> bool {
    d.is_fresh(now) && (!d.kodo_compatibility_enabled || (d.kodo_gateways.len() == 3
        && d.inventory_ready()))
}

/// The document that answers a query.
pub open spec fn answer(d: DirectoryView, q: Query<'_>, now: u128) -> JsonView {
    if (needs_source(q) && !d.is_fresh(now)) || (q is Nodes && d.kodo_compatibility_enabled
        && d.kodo_gateways.len() == 0) {
        JsonView::object().text("message"@, "discovery source is not ready"@)
    } else {
        match q {
            Query::Info => JsonView::object().text("version"@, "0.8.3"@).text(
                "broadcast_address"@,
                "rustqueue-discovery"@,
            ).text("hostname"@, "rustqueue-discovery"@).number("tcp_port"@, 0).number(
                "http_port"@,
                4161,
            ).number("broker_count"@, d.consumers().len() as int),
            Query::Lookup(t) => JsonView::object().list(
                "channels"@,
                texts_json(channels_of(d, t@)),
            ).list("producers"@, producers_json(lookup_producers(d, t@))),
            Query::Topics => JsonView::object().list("topics"@, texts_json(topics_of(d))),
            Query::Channels(t) => JsonView::object().list(
                "channels"@,
                texts_json(channels_of(d, t@)),
            ),
            Query::Nodes => JsonView::object().list("producers"@, producers_json(nodes_of(d))),
            Query::PublishersHead => JsonView::object().number(
                "revision"@,
                directory::routing_revision(d) as int,
            ).number("broker_count"@, d.publishers().len() as int),
            Query::Publishers => JsonView::object().number(
                "revision"@,
                directory::routing_revision(d) as int,
            ).list("producers"@, producers_json(d.publishers())),
            Query::Brokers => JsonView::object().number(
                "revision"@,
                directory::routing_revision(d) as int,
            ).list("producers"@, producers_json(d.all())),
            Query::Health => JsonView::object().text(
                "status"@,
                if d.is_fresh(now) {
                    "ready"@
                } else {
                    "source-unavailable"@
                },
            ).number("broker_count"@, d.consumers().len() as int).flag(
                "lookup_ready"@,
                is_complete(d, now),
            ),
        }
    }
}

/// The status code that answers a query: 503 where the sources were not heard of
/// lately, or producers have nothing to connect to.
pub open spec fn answer_status(d: DirectoryView, q: Query<'_>, now: u128) -> u16 {
    if q is Info {
        200
    } else if !d.is_fresh(now) {
        503
    } else if q is Nodes && d.kodo_compatibility_enabled && d.kodo_gateways.len() == 0 {
        503
    } else {
        200
    }
}

fn unavailable() -> (r: Reply)
    ensures
        r.status == 503,
        json::json_held(r.body) == JsonView::object().text(
            "message"@,
            "discovery source is not ready"@,
        ),
{
    Reply {
        status: 503,
        body: Doc::new().text("message", "discovery source is not ready").done(),
    }
}

fn found(body: Doc) -> (r: Reply)
    ensures
        r.status == 200,
        json::json_held(r.body) == body@,
{
    Reply { status: 200, body: body.done() }
}

/// The answer to a query.
pub fn reply(directory: &Directory, query: &Query<'_>, now: u128) -> (r: Reply)
    requires
        directory.wf(),
    ensures
        r.status == answer_status(directory@, *query, now),
        json::json_held(r.body) == answer(directory@, *query, now),
{
    let fresh = directory.source_ready(now);
    match query {
        Query::Info => {
            return found(
                Doc::new().text("version", "0.8.3").text(
                    "broadcast_address",
                    "rustqueue-discovery",
                ).text("hostname", "rustqueue-discovery").number("tcp_port", 0).number(
                    "http_port",
                    4161,
                ).count("broker_count", directory.broker_count() as u64),
            );
        },
        Query::Health => {
            let body = Doc::new().text(
                "status",
                if fresh {
                    "ready"
                } else {
                    "source-unavailable"
                },
            ).count("broker_count", directory.broker_count() as u64).flag(
                "lookup_ready",
                directory.lookup_ready(now),
            );
            return Reply {
                status: if fresh {
                    200
                } else {
                    503
                },
                body: body.done(),
            };
        },
        _ => {},
    }
    if !fresh {
        return unavailable();
    }
    match query {
        Query::Lookup(topic) => found(
            Doc::new().list("channels", text_items(&directory.channels(topic))).list(
                "producers",
                producer_list(&directory.producers(Some(*topic))),
            ),
        ),
        Query::Topics => found(Doc::new().list("topics", text_items(&directory.topics()))),
        Query::Channels(topic) => found(
            Doc::new().list("channels", text_items(&directory.channels(topic))),
        ),
        Query::Nodes => {
            if !directory.kodo_nodes_ready() {
                return unavailable();
            }
            found(Doc::new().list("producers", producer_list(&directory.node_producers())))
        },
        Query::PublishersHead => {
            let (revision, count): (u64, usize) = directory.publisher_head();
            found(Doc::new().count("revision", revision).count("broker_count", count as u64))
        },
        Query::Publishers => {
            let (revision, producers) = directory.publisher_snapshot();
            found(
                Doc::new().count("revision", revision).list(
                    "producers",
                    producer_list(&producers),
                ),
            )
        },
        Query::Brokers => {
            let (revision, producers) = directory.broker_snapshot();
            found(
                Doc::new().count("revision", revision).list(
                    "producers",
                    producer_list(&producers),
                ),
            )
        },
        _ => unavailable(),
    }
}

/// The status code and text that answer a request to delete a channel.
pub open spec fn deletion_answer(d: DirectoryView, topic: Seq<char>, channel: Seq<char>) -> (
    u16,
    Seq<char>,
) {
    if !d.kodo_cleanup_enabled {
        (404u16, "E_NOT_FOUND Kodo cleanup compatibility is disabled"@)
    } else if topic.len() == 0 || channel.len() == 0 {
        (400u16, "E_BAD_REQUEST topic and channel are required"@)
    } else if d.consumers().len() != 3 {
        (503u16, "E_UNAVAILABLE Kodo cleanup requires all three Brokers"@)
    } else {
        (200u16, "OK"@)
    }
}

/// The status code and text that answer a request to delete a channel: nothing is
/// deleted here, and only where cleanup is announced and all three brokers are
/// there is it allowed.
pub fn delete_channel(directory: &Directory, topic: &str, channel: &str) -> (r: (u16, &'static str))
    requires
        directory.wf(),
    ensures
        (r.0, r.1@) == deletion_answer(directory@, topic@, channel@),
{
    if !directory.kodo_cleanup_enabled() {
        return (404, "E_NOT_FOUND Kodo cleanup compatibility is disabled");
    }
    proof {
        reveal_strlit("");
        assert(topic@.len() == 0 ==> topic@ =~= ""@);
        assert(channel@.len() == 0 ==> channel@ =~= ""@);
    }
    if text::str_eq(topic, "") || text::str_eq(channel, "") {
        return (400, "E_BAD_REQUEST topic and channel are required");
    }
    if directory.broker_count() != 3 {
        return (503, "E_UNAVAILABLE Kodo cleanup requires all three Brokers");
    }
    (200, "OK")
}

/// Whether a client accepts the first version of the protocol of NSQ.
pub fn accepts_nsq_v1(accept: Option<&str>) -> (r: bool)
    ensures
        r == (accept is Some && text::has_text(accept->0@, "application/vnd.nsq"@)
            && text::has_text(accept->0@, "version=1.0"@)),
{
    match accept {
        Some(value) => text::contains_text(value, "application/vnd.nsq") && text::contains_text(
            value,
            "version=1.0",
        ),
        None => false,
    }
}

/// A truth value as a digit.
pub open spec fn bit(b: bool) -> Seq<char> {
    if b {
        "1"@
    } else {
        "0"@
    }
}

fn bit_text(b: bool) -> (r: &'static str)
    ensures
        r@ == bit(b),
{
    if b {
        "1"
    } else {
        "0"
    }
}

/// The gauges of Discovery.
pub open spec fn gauges(d: DirectoryView, now: u128) -> Seq<char> {
    "# HELP rustqueue_discovery_source_ready Whether the Kubernetes and Broker registry source is fresh.\n# TYPE rustqueue_discovery_source_ready gauge\n# HELP rustqueue_discovery_lookup_ready Whether lookup responses have a complete compatible Broker inventory.\n# TYPE rustqueue_discovery_lookup_ready gauge\n# HELP rustqueue_discovery_brokers Number of consume-ready Brokers in the current inventory.\n# TYPE rustqueue_discovery_brokers gauge\n# HELP rustqueue_discovery_publishers Number of publish-ready Brokers in the current inventory.\n# TYPE rustqueue_discovery_publishers gauge\nrustqueue_discovery_source_ready "@
        + bit(d.is_fresh(now)) + "\nrustqueue_discovery_lookup_ready "@ + bit(is_complete(d, now))
        + "\nrustqueue_discovery_brokers "@ + text::dec(d.consumers().len())
        + "\nrustqueue_discovery_publishers "@ + text::dec(d.publishers().len()) + "\n"@
}

/// The metrics of Discovery, after others.
pub fn prometheus(directory: &Directory, others: String, now: u128) -> (r: String)
    requires
        directory.wf(),
    ensures
        r@ == others@ + gauges(directory@, now),
{
    let mut g =
        "# HELP rustqueue_discovery_source_ready Whether the Kubernetes and Broker registry source is fresh.\n# TYPE rustqueue_discovery_source_ready gauge\n# HELP rustqueue_discovery_lookup_ready Whether lookup responses have a complete compatible Broker inventory.\n# TYPE rustqueue_discovery_lookup_ready gauge\n# HELP rustqueue_discovery_brokers Number of consume-ready Brokers in the current inventory.\n# TYPE rustqueue_discovery_brokers gauge\n# HELP rustqueue_discovery_publishers Number of publish-ready Brokers in the current inventory.\n# TYPE rustqueue_discovery_publishers gauge\nrustqueue_discovery_source_ready ".to_owned();
    g.append(bit_text(directory.source_ready(now)));
    g.append("\nrustqueue_discovery_lookup_ready ");
    g.append(bit_text(directory.lookup_ready(now)));
    g.append("\nrustqueue_discovery_brokers ");
    g.append(text::decimal(directory.broker_count() as u64).as_str());
    g.append("\nrustqueue_discovery_publishers ");
    g.append(text::decimal(directory.publisher_count() as u64).as_str());
    g.append("\n");
    let mut r = others;
    r.append(g.as_str());
    r
}

/// What is wrong with the arguments of Discovery.
#[derive(Clone, Copy, Debug, PartialEq, Eq, Structural)]
pub enum ArgumentError {
    Timeout,
    Cleanup,
    NoGateway,
    GatewayWithoutKodo,
}

/// Checks the arguments of Discovery; gives the address of the gateways where
/// Kodo is served.
pub fn check_arguments(
    endpoint_slice_timeout_ms: u64,
    kodo_compatibility_enabled: bool,
    kodo_gateway_address: &Option<String>,
    kodo_cleanup_enabled: bool,
) -> (r: Result<Option<String>, ArgumentError>)
    ensures
        r is Err && r->Err_0 == ArgumentError::Timeout <==> endpoint_slice_timeout_ms == 0,
        r is Err && r->Err_0 == ArgumentError::Cleanup <==> endpoint_slice_timeout_ms != 0
            && kodo_cleanup_enabled,
        r is Err && r->Err_0 == ArgumentError::NoGateway <==> endpoint_slice_timeout_ms != 0
            && !kodo_cleanup_enabled && kodo_compatibility_enabled && (*kodo_gateway_address is None
            || text::is_blank(kodo_gateway_address->0@)),
        r is Err && r->Err_0 == ArgumentError::GatewayWithoutKodo <==> endpoint_slice_timeout_ms
            != 0 && !kodo_cleanup_enabled && !kodo_compatibility_enabled
            && *kodo_gateway_address is Some,
        r is Ok ==> text::opt_text(r->Ok_0) == if kodo_compatibility_enabled {
            Some(text::trimmed(kodo_gateway_address->0@))
        } else {
            None
        },
{
    if endpoint_slice_timeout_ms == 0 {
        return Err(ArgumentError::Timeout);
    }
    if kodo_cleanup_enabled {
        return Err(ArgumentError::Cleanup);
    }
    match kodo_gateway_address {
        Some(address) => {
            if !kodo_compatibility_enabled {
                return Err(ArgumentError::GatewayWithoutKodo);
            }
            if text::blank(address.as_str()) {
                return Err(ArgumentError::NoGateway);
            }
            Ok(Some(text::trim(address.as_str())))
        },
        None => if kodo_compatibility_enabled {
            Err(ArgumentError::NoGateway)
        } else {
            Ok(None)
        },
    }
}

impl ArgumentError {
    /// The message of the error.
    pub fn message(&self) -> (r: &'static str)
        ensures
            r@ == match *self {
                ArgumentError::Timeout => "EndpointSlice timeout must be greater than zero"@,
                ArgumentError::Cleanup =>
                    "Kodo automatic cleanup is disabled until cluster-wide atomic deletion is available"@,
                ArgumentError::NoGateway =>
                    "Kodo Gateway address is required and cannot be empty"@,
                ArgumentError::GatewayWithoutKodo =>
                    "Kodo cleanup and Gateway address require Kodo compatibility"@,
            },
    {
        match self {
            ArgumentError::Timeout => "EndpointSlice timeout must be greater than zero",
            ArgumentError::Cleanup =>
                "Kodo automatic cleanup is disabled until cluster-wide atomic deletion is available",
            ArgumentError::NoGateway => "Kodo Gateway address is required and cannot be empty",
            ArgumentError::GatewayWithoutKodo =>
                "Kodo cleanup and Gateway address require Kodo compatibility",
        }
    }
}

/// Until the sources were heard of, nothing is answered but that.
pub proof fn law_nothing_is_served_without_fresh_sources(d: DirectoryView, q: Query<'_>, now: u128)
    requires
        !d.is_fresh(now),
        !(q is Info),
    ensures
        answer_status(d, q, now) == 503,
        !(q is Health) ==> answer(d, q, now) == JsonView::object().text(
            "message"@,
            "discovery source is not ready"@,
        ),
{
}

/// Serving Kodo changes what producers connect to, but not what consumers look up.
pub proof fn law_kodo_changes_nodes_but_not_lookups(
    d: DirectoryView,
    gateways: Seq<ProducerView>,
    topic: Seq<char>,
)
    ensures
        ({
            let k = DirectoryView {
                kodo_compatibility_enabled: true,
                kodo_gateways: gateways,
                ..d
            };
            &&& nodes_of(k) == gateways
            &&& lookup_producers(k, topic) == lookup_producers(d, topic)
            &&& channels_of(k, topic) == channels_of(d, topic)
        }),
{
}

/// Where cleanup is off, every request to delete a channel is answered by a 404 that cannot
/// be read as a channel that is gone already.
pub proof fn law_disabled_cleanup_is_not_a_missing_channel(
    d: DirectoryView,
    topic: Seq<char>,
    channel: Seq<char>,
)
    requires
        !d.kodo_cleanup_enabled,
    ensures
        deletion_answer(d, topic, channel).0 == 404,
        !text::has_text(deletion_answer(d, topic, channel).1, "CHANNEL_NOT_FOUND"@),
{
    reveal_strlit("E_NOT_FOUND Kodo cleanup compatibility is disabled");
    reveal_strlit("CHANNEL_NOT_FOUND");
    let s = "E_NOT_FOUND Kodo cleanup compatibility is disabled"@;
    assert(s.len() == 50);
    assert(text::lacks(s, 'H', 50)) by {
        reveal_with_fuel(text::lacks, 51);
    }
    text::lemma_lacks(s, "CHANNEL_NOT_FOUND"@, 1, 50);
}

// What the answers say.

/// Whether an answer lists a producer with a node ID.
pub open spec fn lists_node(j: JsonView, n: u64) -> bool {
    &&& json::member(j, "producers"@) matches Some(JsonView::List(items))
    &&& exists|k: int|
        0 <= k < items.len() && json::member(#[trigger] items[k], "node_id"@) == Some(
            JsonView::Number(n as int),
        )
}

/// Whether an answer lists a text under a member.
pub open spec fn lists_text(j: JsonView, key: Seq<char>, t: Seq<char>) -> bool {
    &&& json::member(j, key) matches Some(JsonView::List(items))
    &&& items.contains(JsonView::Text(t))
}

proof fn lemma_producer_members(p: ProducerView)
    ensures
        json::member(producer_json(p), "node_id"@) == Some(JsonView::Number(p.node_id as int)),
        json::member(producer_json(p), "broadcast_address"@) == Some(
            JsonView::Text(p.broadcast_address),
        ),
        json::member(producer_json(p), "hostname"@) == Some(JsonView::Text(p.hostname)),
        json::member(producer_json(p), "remote_address"@) == Some(
            JsonView::Text(p.remote_address),
        ),
        json::member(producer_json(p), "tcp_port"@) == Some(JsonView::Number(p.tcp_port as int)),
        json::member(producer_json(p), "http_port"@) == Some(JsonView::Number(p.http_port as int)),
{
    reveal(producer_json);
    reveal(JsonView::with);
    reveal_strlit("node_id");
    reveal_strlit("broadcast_address");
    reveal_strlit("hostname");
    reveal_strlit("remote_address");
    reveal_strlit("tcp_port");
    reveal_strlit("http_port");
    reveal_strlit("version");
    assert("node_id"@[0] == 'n' && "broadcast_address"@[0] == 'b' && "hostname"@.len() == 8
        && "hostname"@[0] == 'h' && "hostname"@[1] == 'o' && "remote_address"@[0] == 'r'
        && "tcp_port"@[0] == 't' && "http_port"@[0] == 'h' && "http_port"@[1] == 't'
        && "version"@[0] == 'v');
}

proof fn lemma_lists_node(j: JsonView, v: Seq<ProducerView>, n: u64)
    requires
        json::member(j, "producers"@) == Some(JsonView::List(producers_json(v))),
    ensures
        lists_node(j, n) <==> directory::has_node(v, n),
{
    let items = producers_json(v);
    if lists_node(j, n) {
        let k = choose|k: int|
            0 <= k < items.len() && json::member(#[trigger] items[k], "node_id"@) == Some(
                JsonView::Number(n as int),
            );
        lemma_producer_members(v[k]);
        assert(items[k] == producer_json(v[k]));
        assert(v[k].node_id == n);
    }
    if directory::has_node(v, n) {
        let k = choose|k: int| 0 <= k < v.len() && (#[trigger] v[k]).node_id == n;
        lemma_producer_members(v[k]);
        assert(items[k] == producer_json(v[k]));
    }
}

proof fn lemma_lists_text(j: JsonView, key: Seq<char>, d: Set<Seq<char>>, t: Seq<char>)
    requires
        ordered::is_listing::<String>(d, ordered::listed::<String>(d)),
        json::member(j, key) == Some(JsonView::List(texts_json(ordered::listed::<String>(d)))),
    ensures
        lists_text(j, key, t) <==> d.contains(t),
{
    let s = ordered::listed::<String>(d);
    let items = texts_json(s);
    if lists_text(j, key, t) {
        let k = items.index_of(JsonView::Text(t));
        assert(items[k] == JsonView::Text(s[k]));
        assert(s.contains(s[k]));
    }
    if d.contains(t) {
        assert(s.contains(t));
        let k = s.index_of(t);
        assert(items[k] == JsonView::Text(t));
    }
}

proof fn lemma_with_port(enabled: bool, v: Seq<ProducerView>, n: u64)
    ensures
        directory::has_node(directory::with_cleanup_port(enabled, v), n) <==> directory::has_node(
            v,
            n,
        ),
{
    let w = directory::with_cleanup_port(enabled, v);
    if directory::has_node(v, n) {
        let k = choose|k: int| 0 <= k < v.len() && (#[trigger] v[k]).node_id == n;
        assert(w[k].node_id == n);
    }
    if directory::has_node(w, n) {
        let k = choose|k: int| 0 <= k < w.len() && (#[trigger] w[k]).node_id == n;
        assert(v[k].node_id == n);
    }
}

/// A lookup of a topic lists a node exactly where a broker with that node ID was heard of that
/// serves consumers and has the topic, whether or not it can be published to.
pub proof fn law_lookups_list_the_brokers_of_a_topic(
    directory: Directory,
    topic: &str,
    now: u128,
    n: u64,
)
    requires
        directory.wf(),
        directory@.is_fresh(now),
    ensures
        lists_node(answer(directory@, Query::Lookup(topic), now), n) <==> exists|e: EndpointKey|
            {
                &&& directory@.brokers.contains_key(e)
                &&& (#[trigger] directory@.brokers[e]).registry.node_id == n
                &&& directory@.brokers[e].registry.consume_ready
                    || directory@.brokers[e].registry.ready
                &&& exists|i: int|
                    0 <= i < directory@.brokers[e].registry.topics.len() && (
                    #[trigger] directory@.brokers[e].registry.topics[i]).name == topic@
            },
{
    let d = directory@;
    let set = d.serving(topic@);
    let j = answer(d, Query::Lookup(topic), now);
    let b = directory::reports(d.brokers);
    assert forall|e: EndpointKey| #[trigger] set.contains(e) <==> d.brokers.contains_key(e) && (
    d.brokers[e].registry.consume_ready || d.brokers[e].registry.ready) && index::names_topic(
        d.brokers[e].registry.topics,
        topic@,
    ) by {
        assert(b.dom() =~= d.brokers.dom());
        if d.brokers.contains_key(e) {
            assert(b[e] == d.brokers[e].registry);
        }
    }
    directory::law_producers_are_the_brokers_that_report(directory, set);
    json::lemma_member(
        JsonView::object().list("channels"@, texts_json(channels_of(d, topic@))),
        "producers"@,
        JsonView::List(producers_json(lookup_producers(d, topic@))),
        "producers"@,
    );
    lemma_lists_node(j, lookup_producers(d, topic@), n);
    let v = d.producers_at(set);
    lemma_with_port(d.kodo_cleanup_enabled, v, n);
    if directory::has_node(v, n) {
        let k = choose|k: int| 0 <= k < v.len() && (#[trigger] v[k]).node_id == n;
        let e = choose|e: EndpointKey|
            set.contains(e) && directory::tells(v[k], (#[trigger] d.brokers[e]).registry);
        assert(d.brokers[e].registry.node_id == n);
    }
    if exists|e: EndpointKey|
        d.brokers.contains_key(e) && (#[trigger] d.brokers[e]).registry.node_id == n && (
        d.brokers[e].registry.consume_ready || d.brokers[e].registry.ready) && index::names_topic(
            d.brokers[e].registry.topics,
            topic@,
        ) {
        let e = choose|e: EndpointKey|
            d.brokers.contains_key(e) && (#[trigger] d.brokers[e]).registry.node_id == n && (
            d.brokers[e].registry.consume_ready || d.brokers[e].registry.ready)
                && index::names_topic(d.brokers[e].registry.topics, topic@);
        assert(set.contains(e));
    }
}

/// Each producer that a lookup lists is where a broker that has the topic says it is; only the
/// port for HTTP is that for cleanup, where cleanup is announced.
pub proof fn law_lookups_tell_where_brokers_are(
    directory: Directory,
    topic: &str,
    now: u128,
    k: int,
)
    requires
        directory.wf(),
        directory@.is_fresh(now),
        json::member(answer(directory@, Query::Lookup(topic), now), "producers"@) matches Some(
            JsonView::List(items),
        ) && 0 <= k < items.len(),
    ensures
        json::member(answer(directory@, Query::Lookup(topic), now), "producers"@) matches Some(
            JsonView::List(items),
        ) && exists|e: EndpointKey|
            {
                let r = (#[trigger] directory@.brokers[e]).registry;
                &&& directory@.brokers.contains_key(e)
                &&& r.consume_ready || r.ready
                &&& json::member(items[k], "node_id"@) == Some(JsonView::Number(r.node_id as int))
                &&& json::member(items[k], "broadcast_address"@) == Some(
                    JsonView::Text(r.broadcast_address),
                )
                &&& json::member(items[k], "remote_address"@) == Some(
                    JsonView::Text(
                        r.broadcast_address + ":"@ + text::dec(r.tcp_port as nat),
                    ),
                )
                &&& json::member(items[k], "tcp_port"@) == Some(
                    JsonView::Number(r.tcp_port as int),
                )
                &&& json::member(items[k], "http_port"@) == Some(
                    JsonView::Number(
                        if directory@.kodo_cleanup_enabled {
                            4152
                        } else {
                            r.http_port as int
                        },
                    ),
                )
            },
{
    let d = directory@;
    let set = d.serving(topic@);
    let b = directory::reports(d.brokers);
    assert forall|e: EndpointKey| #[trigger] set.contains(e) implies d.brokers.contains_key(e) && (
    d.brokers[e].registry.consume_ready || d.brokers[e].registry.ready) by {
        assert(b.dom() =~= d.brokers.dom());
        assert(b[e] == d.brokers[e].registry);
    }
    directory::law_producers_are_the_brokers_that_report(directory, set);
    let w = lookup_producers(d, topic@);
    json::lemma_member(
        JsonView::object().list("channels"@, texts_json(channels_of(d, topic@))),
        "producers"@,
        JsonView::List(producers_json(w)),
        "producers"@,
    );
    let v = d.producers_at(set);
    let e = choose|e: EndpointKey|
        set.contains(e) && directory::tells(v[k], (#[trigger] d.brokers[e]).registry);
    lemma_producer_members(w[k]);
    assert(producers_json(w)[k] == producer_json(w[k]));
    assert(directory::tells(v[k], d.brokers[e].registry));
}

/// A channel of a topic is told, on lookups and on its own, exactly where a broker that serves
/// consumers has the topic with the channel.
pub proof fn law_channels_are_those_of_the_topic(
    directory: Directory,
    topic: &str,
    now: u128,
    c: Seq<char>,
)
    requires
        directory.wf(),
        directory@.is_fresh(now),
    ensures
        lists_text(answer(directory@, Query::Channels(topic), now), "channels"@, c) <==> lists_text(
            answer(directory@, Query::Lookup(topic), now),
            "channels"@,
            c,
        ),
        lists_text(answer(directory@, Query::Channels(topic), now), "channels"@, c) <==> exists|
            e: EndpointKey,
        |
            {
                let r = (#[trigger] directory@.brokers[e]).registry;
                &&& directory@.brokers.contains_key(e)
                &&& r.consume_ready || r.ready
                &&& exists|i: int|
                    0 <= i < r.topics.len() && (#[trigger] r.topics[i]).name == topic@
                        && r.topics[i].channels.contains(c)
            },
{
    let d = directory@;
    let t = topic@;
    let set = d.channel_set(t);
    let b = directory::reports(d.brokers);
    directory::lemma_channels_listed(directory, t);
    let items = JsonView::List(texts_json(channels_of(d, t)));
    json::lemma_member(JsonView::object(), "channels"@, items, "channels"@);
    reveal_strlit("channels");
    reveal_strlit("producers");
    assert("channels"@.len() != "producers"@.len());
    json::lemma_member(
        JsonView::object().list("channels"@, texts_json(channels_of(d, t))),
        "producers"@,
        JsonView::List(producers_json(lookup_producers(d, t))),
        "channels"@,
    );
    lemma_lists_text(answer(d, Query::Channels(topic), now), "channels"@, set, c);
    lemma_lists_text(answer(d, Query::Lookup(topic), now), "channels"@, set, c);
    assert(b.dom() =~= d.brokers.dom());
    if set.contains(c) {
        let e = choose|e: EndpointKey| index::serves_channel(b, t, c, e);
        assert(b[e] == d.brokers[e].registry);
    }
    if exists|e: EndpointKey|
        d.brokers.contains_key(e) && ((#[trigger] d.brokers[e]).registry.consume_ready
            || d.brokers[e].registry.ready) && index::names_channel(
            d.brokers[e].registry.topics,
            t,
            c,
        ) {
        let e = choose|e: EndpointKey|
            d.brokers.contains_key(e) && ((#[trigger] d.brokers[e]).registry.consume_ready
                || d.brokers[e].registry.ready) && index::names_channel(
                d.brokers[e].registry.topics,
                t,
                c,
            );
        assert(b[e] == d.brokers[e].registry);
        assert(index::serves_channel(b, t, c, e));
    }
}

/// A topic is told exactly where a broker that serves consumers has it.
pub proof fn law_topics_are_those_of_the_brokers(directory: Directory, now: u128, t: Seq<char>)
    requires
        directory.wf(),
        directory@.is_fresh(now),
    ensures
        lists_text(answer(directory@, Query::Topics, now), "topics"@, t) <==> exists|
            e: EndpointKey,
        |
            {
                let r = (#[trigger] directory@.brokers[e]).registry;
                &&& directory@.brokers.contains_key(e)
                &&& r.consume_ready || r.ready
                &&& exists|i: int| 0 <= i < r.topics.len() && (#[trigger] r.topics[i]).name == t
            },
{
    let d = directory@;
    let set = d.topic_set();
    let b = directory::reports(d.brokers);
    directory::lemma_topics_listed(directory);
    json::lemma_member(
        JsonView::object(),
        "topics"@,
        JsonView::List(texts_json(topics_of(d))),
        "topics"@,
    );
    lemma_lists_text(answer(d, Query::Topics, now), "topics"@, set, t);
    assert(b.dom() =~= d.brokers.dom());
    if set.contains(t) {
        let e = choose|e: EndpointKey| index::serves(b, t, e);
        assert(b[e] == d.brokers[e].registry);
    }
    if exists|e: EndpointKey|
        d.brokers.contains_key(e) && ((#[trigger] d.brokers[e]).registry.consume_ready
            || d.brokers[e].registry.ready) && index::names_topic(d.brokers[e].registry.topics, t) {
        let e = choose|e: EndpointKey|
            d.brokers.contains_key(e) && ((#[trigger] d.brokers[e]).registry.consume_ready
                || d.brokers[e].registry.ready) && index::names_topic(
                d.brokers[e].registry.topics,
                t,
            );
        assert(b[e] == d.brokers[e].registry);
        assert(index::serves(b, t, e));
    }
}

proof fn lemma_producers_of(directory: Directory, d: Set<EndpointKey>, j: JsonView, n: u64)
    requires
        directory.wf(),
        forall|e: EndpointKey| #[trigger] d.contains(e) ==> directory@.brokers.contains_key(e),
        json::member(j, "producers"@) == Some(
            JsonView::List(producers_json(directory@.producers_at(d))),
        ),
    ensures
        lists_node(j, n) <==> exists|e: EndpointKey|
            d.contains(e) && (#[trigger] directory@.brokers[e]).registry.node_id == n,
{
    directory::law_producers_are_the_brokers_that_report(directory, d);
    let v = directory@.producers_at(d);
    lemma_lists_node(j, v, n);
    if directory::has_node(v, n) {
        let k = choose|k: int| 0 <= k < v.len() && (#[trigger] v[k]).node_id == n;
        let e = choose|e: EndpointKey|
            d.contains(e) && directory::tells(v[k], (#[trigger] directory@.brokers[e]).registry);
        assert(directory@.brokers[e].registry.node_id == n);
    }
}

/// Producers connect to the brokers that can be published to, or to the gateways where Kodo is
/// served.
pub proof fn law_nodes_can_be_published_to(directory: Directory, now: u128, n: u64)
    requires
        directory.wf(),
        directory@.is_fresh(now),
    ensures
        !directory@.kodo_compatibility_enabled ==> (lists_node(
            answer(directory@, Query::Nodes, now),
            n,
        ) <==> exists|e: EndpointKey|
            directory@.brokers.contains_key(e) && (#[trigger] directory@.brokers[e]).registry.node_id
                == n && directory@.brokers[e].registry.publish_ready),
        directory@.kodo_compatibility_enabled && directory@.kodo_gateways.len() > 0 ==> (lists_node(
            answer(directory@, Query::Nodes, now),
            n,
        ) <==> exists|k: int|
            0 <= k < directory@.kodo_gateways.len() && (
            #[trigger] directory@.kodo_gateways[k]).node_id == n),
        directory@.kodo_compatibility_enabled && directory@.kodo_gateways.len() == 0
            ==> !lists_node(answer(directory@, Query::Nodes, now), n) && answer_status(
            directory@,
            Query::Nodes,
            now,
        ) == 503,
{
    let d = directory@;
    let j = answer(d, Query::Nodes, now);
    if d.kodo_compatibility_enabled && d.kodo_gateways.len() == 0 {
        reveal(JsonView::with);
        reveal_strlit("message");
        reveal_strlit("producers");
        assert("message"@.len() != "producers"@.len());
    } else {
        json::lemma_member(
            JsonView::object(),
            "producers"@,
            JsonView::List(producers_json(nodes_of(d))),
            "producers"@,
        );
        lemma_lists_node(j, nodes_of(d), n);
        if !d.kodo_compatibility_enabled {
            lemma_producers_of(directory, d.publishing(), j, n);
        }
    }
}

/// Proxies are told the brokers that can be published to, and all brokers, with one revision
/// for both and for the count of the first.
pub proof fn law_proxies_are_told_publishers_and_brokers(directory: Directory, now: u128, n: u64)
    requires
        directory.wf(),
        directory@.is_fresh(now),
    ensures
        lists_node(answer(directory@, Query::Publishers, now), n) <==> exists|e: EndpointKey|
            directory@.brokers.contains_key(e) && (#[trigger] directory@.brokers[e]).registry.node_id
                == n && directory@.brokers[e].registry.publish_ready,
        lists_node(answer(directory@, Query::Brokers, now), n) <==> exists|e: EndpointKey|
            directory@.brokers.contains_key(e) && (#[trigger] directory@.brokers[e]).registry.node_id
                == n,
        json::member(answer(directory@, Query::Publishers, now), "revision"@) == json::member(
            answer(directory@, Query::PublishersHead, now),
            "revision"@,
        ),
        json::member(answer(directory@, Query::Brokers, now), "revision"@) == json::member(
            answer(directory@, Query::PublishersHead, now),
            "revision"@,
        ),
        json::member(answer(directory@, Query::Publishers, now), "revision"@) is Some,
        json::member(answer(directory@, Query::Publishers, now), "producers"@) matches Some(
            JsonView::List(items),
        ) && json::member(answer(directory@, Query::PublishersHead, now), "broker_count"@) == Some(
            JsonView::Number(items.len() as int),
        ),
{
    let d = directory@;
    let revision = JsonView::object().number(
        "revision"@,
        directory::routing_revision(d) as int,
    );
    reveal_strlit("revision");
    reveal_strlit("producers");
    reveal_strlit("broker_count");
    assert("revision"@.len() == 8 && "producers"@.len() == 9 && "broker_count"@.len() == 12);
    let number = JsonView::Number(directory::routing_revision(d) as int);
    json::lemma_member(JsonView::object(), "revision"@, number, "revision"@);
    json::lemma_member(
        revision,
        "producers"@,
        JsonView::List(producers_json(d.publishers())),
        "revision"@,
    );
    json::lemma_member(
        revision,
        "producers"@,
        JsonView::List(producers_json(d.all())),
        "revision"@,
    );
    json::lemma_member(
        revision,
        "broker_count"@,
        JsonView::Number(d.publishers().len() as int),
        "revision"@,
    );
    lemma_producers_of(directory, d.publishing(), answer(d, Query::Publishers, now), n);
    lemma_producers_of(directory, d.brokers.dom(), answer(d, Query::Brokers, now), n);
}

/// How many brokers there are is told as how many nodes serve consumers: each of them once.
pub proof fn law_consumers_are_the_ready_brokers(directory: Directory, n: u64)
    requires
        directory.wf(),
    ensures
        directory::nodes_increase(directory@.consumers()),
        directory::has_node(directory@.consumers(), n) <==> exists|e: EndpointKey|
            directory@.brokers.contains_key(e) && (#[trigger] directory@.brokers[e]).registry.node_id
                == n && (directory@.brokers[e].registry.consume_ready
                || directory@.brokers[e].registry.ready),
{
    let d = directory@.consuming();
    directory::law_producers_are_the_brokers_that_report(directory, d);
    let v = directory@.consumers();
    if directory::has_node(v, n) {
        let k = choose|k: int| 0 <= k < v.len() && (#[trigger] v[k]).node_id == n;
        let e = choose|e: EndpointKey|
            d.contains(e) && directory::tells(v[k], (#[trigger] directory@.brokers[e]).registry);
        assert(directory@.brokers[e].registry.node_id == n);
    }
    if exists|e: EndpointKey|
        directory@.brokers.contains_key(e) && (#[trigger] directory@.brokers[e]).registry.node_id
            == n && (directory@.brokers[e].registry.consume_ready
            || directory@.brokers[e].registry.ready) {
        let e = choose|e: EndpointKey|
            directory@.brokers.contains_key(e) && (#[trigger] directory@.brokers[e]).registry.node_id
                == n && (directory@.brokers[e].registry.consume_ready
                || directory@.brokers[e].registry.ready);
        assert(d.contains(e));
    }
}

/// Health and Info count the brokers that serve consumers; Health is good exactly while the
/// sources were heard of lately.
pub proof fn law_health_tells_freshness_and_brokers(d: DirectoryView, now: u128)
    ensures
        json::member(answer(d, Query::Health, now), "broker_count"@) == Some(
            JsonView::Number(d.consumers().len() as int),
        ),
        json::member(answer(d, Query::Info, now), "broker_count"@) == Some(
            JsonView::Number(d.consumers().len() as int),
        ),
        answer_status(d, Query::Health, now) == 200 <==> d.is_fresh(now),
        answer_status(d, Query::Health, now) == 503 <==> !d.is_fresh(now),
        answer_status(d, Query::Info, now) == 200,
        json::member(answer(d, Query::Health, now), "lookup_ready"@) == Some(JsonView::Bool(true))
            ==> d.is_fresh(now),
        d.is_fresh(now) && !d.kodo_compatibility_enabled ==> json::member(
            answer(d, Query::Health, now),
            "lookup_ready"@,
        ) == Some(JsonView::Bool(true)),
        d.kodo_compatibility_enabled && json::member(
            answer(d, Query::Health, now),
            "lookup_ready"@,
        ) == Some(JsonView::Bool(true)) ==> d.kodo_gateways.len() == 3 && d.consumers().len() == 3,
{
    reveal(JsonView::with);
    reveal_strlit("broker_count");
    reveal_strlit("lookup_ready");
    assert("broker_count"@[0] == 'b' && "lookup_ready"@[0] == 'l');
}

/// Channels may be deleted where cleanup is announced, both are named, and all
/// three brokers are there, and each other request is told which of these it
/// lacks first.
pub proof fn law_deletions_need_cleanup_names_and_three_brokers(
    directory: &Directory,
    topic: &str,
    channel: &str,
    r: (u16, &'static str),
)
    requires
        call_ensures(delete_channel, (directory, topic, channel), r),
    ensures
        r.0 == 404 <==> !directory@.kodo_cleanup_enabled,
        r.0 == 400 <==> directory@.kodo_cleanup_enabled && (topic@.len() == 0 || channel@.len()
            == 0),
        r.0 == 503 <==> directory@.kodo_cleanup_enabled && topic@.len() > 0 && channel@.len() > 0
            && directory@.consumers().len() != 3,
        r.0 == 200 <==> directory@.kodo_cleanup_enabled && topic@.len() > 0 && channel@.len() > 0
            && directory@.consumers().len() == 3,
{
}

/// The gauges tell whether the sources are fresh and lookups are complete, with
/// one for yes and nought for no, and then how many brokers can be consumed from
/// and how many can be published to.
pub proof fn law_gauges_tell_the_directory(
    directory: &Directory,
    others: String,
    now: u128,
    r: String,
)
    requires
        call_ensures(prometheus, (directory, others, now), r),
    ensures
        text::starts(r@, others@),
        text::ends(
            r@,
            seq![
                if directory@.is_fresh(now) {
                    '1'
                } else {
                    '0'
                },
            ] + "\nrustqueue_discovery_lookup_ready "@ + seq![
                if is_complete(directory@, now) {
                    '1'
                } else {
                    '0'
                },
            ] + "\nrustqueue_discovery_brokers "@ + text::dec(directory@.consumers().len())
                + "\nrustqueue_discovery_publishers "@ + text::dec(directory@.publishers().len())
                + "\n"@,
        ),
{
    reveal_strlit("1");
    reveal_strlit("0");
    let one = bit(directory@.is_fresh(now));
    let two = bit(is_complete(directory@, now));
    assert(one =~= seq![
        if directory@.is_fresh(now) {
            '1'
        } else {
            '0'
        },
    ]);
    assert(two =~= seq![
        if is_complete(directory@, now) {
            '1'
        } else {
            '0'
        },
    ]);
    let tail = one + "\nrustqueue_discovery_lookup_ready "@ + two
        + "\nrustqueue_discovery_brokers "@ + text::dec(directory@.consumers().len())
        + "\nrustqueue_discovery_publishers "@ + text::dec(directory@.publishers().len())
        + "\n"@;
    assert(r@.take(others@.len() as int) =~= others@);
    assert(r@.skip(r@.len() - tail.len()) =~= tail);
}

} // verus!
