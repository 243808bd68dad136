//! The configuration file of a broker in a federated cluster.
use crate::operator::cluster::RustQueueClusterSpec;
use crate::operator::layout::{self, BrokerPlan, BrokerView, CellPlan, CellView, ClusterLayout};
use crate::text;
use std::collections::BTreeMap;
use vstd::prelude::*;
use vstd::string::*;

verus! {

broadcast use {vstd::std_specs::btree::group_btree_axioms, vstd::laws_cmp::group_laws_cmp};

/// What a broker configuration is rendered from.
pub struct ConfigInput<'a> {
    pub cluster_name: &'a str,
    pub namespace: &'a str,
    pub spec: &'a RustQueueClusterSpec,
    pub layout: &'a ClusterLayout,
    pub broker: &'a BrokerPlan,
    pub failure_domains: &'a BTreeMap<u64, String>,
}

/// Why a configuration cannot be rendered.
#[derive(Clone, Copy, Debug, PartialEq, Eq, Structural)]
pub enum ConfigError {
    /// No cell of the layout has the ID of the broker's cell.
    CellAbsent,
    /// The cell with the ID has fewer brokers than a replication factor.
    ReplicationUnsatisfied(u64),
    /// The layout has fewer than three brokers.
    RootVoters,
    /// The cell has no broker.
    NoSeed,
    /// A node ID stands for no broker of the layout.
    BrokerAbsent,
    /// The text does not parse as TOML.
    InvalidToml,
}

impl ConfigError {
    /// What the error says.
    pub fn message(&self) -> (r: String)
        ensures
            r@ == (match *self {
                ConfigError::CellAbsent => "Broker Cell is absent from layout"@,
                ConfigError::ReplicationUnsatisfied(cell) => "Cell "@ + text::dec(cell as nat)
                    + " does not satisfy configured replication factors"@,
                ConfigError::RootVoters => "federation requires at least three root voters"@,
                ConfigError::NoSeed => "Cell has no seed Broker"@,
                ConfigError::BrokerAbsent => "visible Broker is absent"@,
                ConfigError::InvalidToml => "generated Broker config is invalid TOML"@,
            }),
    {
        match self {
            ConfigError::CellAbsent => "Broker Cell is absent from layout".to_owned(),
            ConfigError::ReplicationUnsatisfied(cell) => {
                let mut r = "Cell ".to_owned();
                r.append(text::decimal(*cell).as_str());
                r.append(" does not satisfy configured replication factors");
                r
            },
            ConfigError::RootVoters => "federation requires at least three root voters".to_owned(),
            ConfigError::NoSeed => "Cell has no seed Broker".to_owned(),
            ConfigError::BrokerAbsent => "visible Broker is absent".to_owned(),
            ConfigError::InvalidToml => "generated Broker config is invalid TOML".to_owned(),
        }
    }
}

/// How `toml::Value::String` writes a text.
pub uninterp spec fn toml_string(value: Seq<char>) -> Seq<char>;

/// Writes a text as `toml::Value::String` does, quotes and escapes included.
#[verifier::external_body]
pub(crate) fn quoted(value: &str) -> (r: String)
    ensures
        r@ == toml_string(value@),
{
    toml::Value::String(value.to_owned()).to_string()
}

/// Whether `toml::from_str` reads a value from a text.
pub uninterp spec fn toml_reads(value: Seq<char>) -> bool;

/// Whether `toml::from_str` reads a value from a text.
#[verifier::external_body]
pub(crate) fn reads_as_toml(value: &str) -> (r: bool)
    ensures
        r == toml_reads(value@),
{
    toml::from_str::<toml::Value>(value).is_ok()
}

/// The name of a broker pod inside the cluster network.
pub open spec fn fqdn(broker: BrokerView, namespace: Seq<char>) -> Seq<char> {
    broker.pod_name + "."@ + broker.headless_service + "."@ + namespace + ".svc"@
}

/// Where a broker is found by its peers.
pub open spec fn peer_address(broker: BrokerView, namespace: Seq<char>) -> Seq<char> {
    "/dns4/"@ + fqdn(broker, namespace) + "/tcp/4350"@
}

/// The name of a broker pod inside the cluster network.
pub fn pod_fqdn(input: &ConfigInput<'_>, broker: &BrokerPlan) -> (r: String)
    ensures
        r@ == fqdn(broker@, input.namespace@),
{
    let mut r = broker.pod_name.clone();
    r.append(".");
    r.append(broker.headless_service.as_str());
    r.append(".");
    r.append(input.namespace);
    r.append(".svc");
    r
}

fn p2p_address(input: &ConfigInput<'_>, broker: &BrokerPlan) -> (r: String)
    ensures
        r@ == peer_address(broker@, input.namespace@),
{
    let mut r = "/dns4/".to_owned();
    r.append(pod_fqdn(input, broker).as_str());
    r.append("/tcp/4350");
    r
}

/// A text with one assignment more.
pub open spec fn with_line(out: Seq<char>, name: Seq<char>, value: Seq<char>) -> Seq<char> {
    out + name + " = "@ + value + "\n"@
}

/// A text with one number more.
pub open spec fn with_number(out: Seq<char>, name: Seq<char>, value: nat) -> Seq<char> {
    with_line(out, name, text::dec(value))
}

/// `true` or `false`.
pub open spec fn bool_text(value: bool) -> Seq<char> {
    if value {
        "true"@
    } else {
        "false"@
    }
}

/// A text with one switch more.
pub open spec fn with_bool(out: Seq<char>, name: Seq<char>, value: bool) -> Seq<char> {
    with_line(out, name, bool_text(value))
}

/// A text with one quoted text more.
pub open spec fn with_text(out: Seq<char>, name: Seq<char>, value: Seq<char>) -> Seq<char> {
    with_line(out, name, toml_string(value))
}

/// Numbers with a comma and a space between them.
pub open spec fn number_list(values: Seq<u64>) -> Seq<char>
    decreases values.len(),
{
    if values.len() == 0 {
        ""@
    } else if values.len() == 1 {
        text::dec(values[0] as nat)
    } else {
        number_list(values.drop_last()) + ", "@ + text::dec(values.last() as nat)
    }
}

/// Quoted texts with a comma and a space between them.
pub open spec fn text_list(values: Seq<Seq<char>>) -> Seq<char>
    decreases values.len(),
{
    if values.len() == 0 {
        ""@
    } else if values.len() == 1 {
        toml_string(values[0])
    } else {
        text_list(values.drop_last()) + ", "@ + toml_string(values.last())
    }
}

/// Appends an assignment.
pub fn line(output: &mut String, name: &str, value: &str)
    ensures
        final(output)@ == with_line(old(output)@, name@, value@),
{
    output.append(name);
    output.append(" = ");
    output.append(value);
    output.append("\n");
}

fn number_line(output: &mut String, name: &str, value: u64)
    ensures
        final(output)@ == with_number(old(output)@, name@, value as nat),
{
    line(output, name, text::decimal(value).as_str());
}

fn bool_line(output: &mut String, name: &str, value: bool)
    ensures
        final(output)@ == with_bool(old(output)@, name@, value),
{
    line(
        output,
        name,
        if value {
            "true"
        } else {
            "false"
        },
    );
}

fn string_line(output: &mut String, name: &str, value: &str)
    ensures
        final(output)@ == with_text(old(output)@, name@, value@),
{
    line(output, name, quoted(value).as_str());
}

fn list_line(output: &mut String, name: &str, values: &Vec<u64>)
    ensures
        final(output)@ == with_line(
            old(output)@,
            name@,
            "["@ + number_list(values@) + "]"@,
        ),
{
    let mut list = "".to_owned();
    let mut i: usize = 0;
    assert(values@.take(0) =~= Seq::<u64>::empty());
    while i < values.len()
        invariant
            i <= values@.len(),
            list@ == number_list(values@.take(i as int)),
        decreases values@.len() - i,
    {
        assert(values@.take(i + 1).drop_last() =~= values@.take(i as int));
        assert(values@.take(i + 1).last() == values@[i as int]);
        if i == 0 {
            list = text::decimal(values[i]);
        } else {
            list.append(", ");
            list.append(text::decimal(values[i]).as_str());
        }
        i += 1;
    }
    assert(values@.take(values@.len() as int) =~= values@);
    let mut value = "[".to_owned();
    value.append(list.as_str());
    value.append("]");
    line(output, name, value.as_str());
}

fn string_list_line(output: &mut String, name: &str, values: &Vec<String>)
    ensures
        final(output)@ == with_line(
            old(output)@,
            name@,
            "["@ + text_list(text::texts(values@)) + "]"@,
        ),
{
    let ghost t = text::texts(values@);
    let mut list = "".to_owned();
    let mut i: usize = 0;
    assert(t.take(0) =~= Seq::<Seq<char>>::empty());
    while i < values.len()
        invariant
            i <= values@.len(),
            t == text::texts(values@),
            list@ == text_list(t.take(i as int)),
        decreases values@.len() - i,
    {
        assert(t[i as int] == values@[i as int]@);
        assert(t.take(i + 1).drop_last() =~= t.take(i as int));
        assert(t.take(i + 1).last() == t[i as int]);
        if i == 0 {
            list = quoted(values[i].as_str());
        } else {
            list.append(", ");
            list.append(quoted(values[i].as_str()).as_str());
        }
        i += 1;
    }
    assert(t.take(values@.len() as int) =~= t);
    let mut value = "[".to_owned();
    value.append(list.as_str());
    value.append("]");
    line(output, name, value.as_str());
}

/// The first cell with an ID, from `k` on.
pub open spec fn first_cell(cells: Seq<CellView>, id: nat, k: int) -> Option<int>
    decreases cells.len() - k,
{
    if k < 0 || k >= cells.len() {
        None
    } else if cells[k].id == id {
        Some(k)
    } else {
        first_cell(cells, id, k + 1)
    }
}

/// The node IDs of brokers.
pub open spec fn node_ids(brokers: Seq<BrokerView>) -> Seq<u64> {
    brokers.map_values(|b: BrokerView| b.node_id as u64)
}

/// Strictly increasing numbers with one more, which is there once.
pub open spec fn with_id(ids: Seq<u64>, id: u64) -> Seq<u64>
    decreases ids.len(),
{
    if ids.len() > 0 && ids.last() == id {
        ids
    } else if ids.len() > 0 && id < ids.last() {
        with_id(ids.drop_last(), id).push(ids.last())
    } else {
        ids.push(id)
    }
}

/// Strictly increasing numbers with all of `more`.
pub open spec fn with_ids(ids: Seq<u64>, more: Seq<u64>) -> Seq<u64>
    decreases more.len(),
{
    if more.len() == 0 {
        ids
    } else {
        with_id(with_ids(ids, more.drop_last()), more.last())
    }
}

/// Two texts in order, or one where they are equal.
pub open spec fn ordered_pair(a: Seq<char>, b: Seq<char>) -> Seq<Seq<char>> {
    if a == b {
        seq![a]
    } else if text::text_lt(a, b) {
        seq![a, b]
    } else {
        seq![b, a]
    }
}

proof fn lemma_with_id_at(ids: Seq<u64>, id: u64, k: int)
    requires
        0 <= k <= ids.len(),
        forall|j: int| k <= j < ids.len() ==> id < #[trigger] ids[j],
        k > 0 ==> ids[k - 1] <= id,
    ensures
        with_id(ids, id) == if k > 0 && ids[k - 1] == id {
            ids
        } else {
            ids.insert(k, id)
        },
    decreases ids.len(),
{
    if k == ids.len() {
        assert(ids.insert(k, id) =~= ids.push(id));
    } else {
        lemma_with_id_at(ids.drop_last(), id, k);
        assert(ids.drop_last().push(ids.last()) =~= ids);
        assert(ids.drop_last().insert(k, id).push(ids.last()) =~= ids.insert(k, id));
    }
}

fn insert_id(ids: &mut Vec<u64>, id: u64)
    ensures
        final(ids)@ == with_id(old(ids)@, id),
{
    let mut k: usize = ids.len();
    while k > 0 && id < ids[k - 1]
        invariant
            k <= ids@.len(),
            ids@ == old(ids)@,
            forall|j: int| k <= j < ids@.len() ==> id < #[trigger] ids@[j],
        decreases k,
    {
        k -= 1;
    }
    proof {
        lemma_with_id_at(ids@, id, k as int);
    }
    if !(k > 0 && ids[k - 1] == id) {
        ids.insert(k, id);
    }
}

fn find_cell(layout: &ClusterLayout, id: u64) -> (r: Option<usize>)
    ensures
        match r {
            Some(i) => i < layout.cells@.len() && first_cell(layout@.cells, id as nat, 0) == Some(
                i as int,
            ),
            None => first_cell(layout@.cells, id as nat, 0) is None,
        },
{
    let ghost cells = layout@.cells;
    let mut i: usize = 0;
    while i < layout.cells.len()
        invariant
            i <= layout.cells@.len(),
            cells == layout@.cells,
            first_cell(cells, id as nat, 0) == first_cell(cells, id as nat, i as int),
        decreases layout.cells@.len() - i,
    {
        assert(cells[i as int] == layout.cells@[i as int]@);
        if layout.cells[i].id == id {
            return Some(i);
        }
        i += 1;
    }
    None
}

/// The settings that are the same for all brokers of a cluster, up to the
/// storage section.
#[verifier::opaque]
pub open spec fn node_sections(out: Seq<char>, id: nat, address: Seq<char>) -> Seq<char> {
    let o = out + "log_format = \"json\"\n"@ + "[node]\n"@;
    let o = with_number(o, "id"@, id);
    let o = with_text(o, "broadcast_address"@, address);
    let o = o + "[network]\n"@;
    let o = with_text(o, "tcp_address"@, "0.0.0.0:4150"@);
    let o = with_text(o, "http_address"@, "0.0.0.0:4151"@);
    let o = with_text(o, "internal_address"@, "0.0.0.0:4250"@);
    let o = with_number(o, "advertised_tcp_port"@, 4150);
    with_number(o, "advertised_http_port"@, 4151)
}

/// The storage section.
#[verifier::opaque]
pub open spec fn storage_section(out: Seq<char>, spec: RustQueueClusterSpec) -> Seq<char> {
    let o = out + "[storage]\n"@;
    let o = with_text(o, "data_path"@, "/data"@);
    let o = with_number(o, "max_segment_bytes"@, 104_857_600);
    let o = with_number(o, "entry_cache_bytes"@, 67_108_864);
    let o = with_number(o, "payload_read_workers"@, 0);
    let o = with_number(o, "payload_read_queue"@, 4096);
    let o = with_number(o, "dedup_max_entries"@, 1_000_000);
    let o = with_number(o, "dedup_ttl_seconds"@, 600);
    let o = with_number(
        o,
        "disk_high_watermark_percent"@,
        spec.storage.disk_high_watermark_percent as nat,
    );
    let o = with_number(
        o,
        "disk_low_watermark_percent"@,
        spec.storage.disk_low_watermark_percent as nat,
    );
    let o = with_number(o, "min_free_bytes"@, spec.storage.min_free_bytes as nat);
    let o = with_bool(
        o,
        "protective_eviction_enabled"@,
        spec.storage.protective_eviction_enabled,
    );
    with_number(o, "disk_pressure_grace_seconds"@, 60)
}

/// The queue and limits sections.
#[verifier::opaque]
pub open spec fn queue_sections(out: Seq<char>, spec: RustQueueClusterSpec) -> Seq<char> {
    let o = out + "[queue]\n"@;
    let o = with_number(o, "default_partitions"@, spec.queue.default_partitions as nat);
    let o = with_number(
        o,
        "max_partitions_per_topic"@,
        spec.queue.max_partitions_per_topic as nat,
    );
    let o = with_number(o, "max_message_bytes"@, spec.queue.max_message_bytes as nat);
    let o = with_number(o, "max_ack_gap"@, 65_536);
    let o = with_number(
        o,
        "max_backlog_messages_per_partition"@,
        spec.queue.max_backlog_messages_per_partition as nat,
    );
    let o = with_number(
        o,
        "message_retention_seconds"@,
        spec.queue.message_retention_seconds as nat,
    );
    let o = with_number(o, "max_delivery_attempts"@, spec.queue.max_delivery_attempts as nat);
    let o = o + "[limits]\n"@;
    let o = with_number(o, "max_body_bytes"@, spec.queue.max_body_bytes as nat);
    let o = with_number(
        o,
        "connection_publish_inflight_bytes"@,
        spec.queue.max_body_bytes as nat,
    );
    with_number(o, "node_publish_inflight_bytes"@, 536_870_912)
}

/// The security sections.
#[verifier::opaque]
pub open spec fn security_sections(out: Seq<char>) -> Seq<char> {
    let o = out + "[security]\n"@;
    let o = with_text(o, "admin_token_file"@, "/etc/rustqueue/shared/admin.token"@);
    let o = o + "[security.internal_tls]\n"@;
    let o = with_text(o, "certificate_file"@, "/etc/rustqueue/tls/tls.crt"@);
    let o = with_text(o, "private_key_file"@, "/etc/rustqueue/tls/tls.key"@);
    let o = with_text(o, "client_ca_file"@, "/etc/rustqueue/shared/ca.crt"@);
    let o = with_text(o, "root_ca_file"@, "/etc/rustqueue/shared/ca.crt"@);
    let o = with_bool(o, "require_client_certificate"@, true);
    with_bool(o, "required"@, true)
}

/// The cluster section.
#[verifier::opaque]
pub open spec fn cluster_section(
    out: Seq<char>,
    name: Seq<char>,
    first: bool,
    initial_voters: Seq<u64>,
    spec: RustQueueClusterSpec,
) -> Seq<char> {
    let o = out + "[cluster]\n"@;
    let o = with_bool(o, "enabled"@, true);
    let o = with_bool(o, "bootstrap"@, first);
    let o = with_text(o, "name"@, name);
    let o = with_line(o, "initial_voters"@, "["@ + number_list(initial_voters) + "]"@);
    let o = with_number(
        o,
        "default_replication_factor"@,
        spec.replication.partitions as nat,
    );
    with_number(o, "metadata_replication_factor"@, spec.replication.metadata as nat)
}

/// The federation section.
#[verifier::opaque]
pub open spec fn federation_section(
    out: Seq<char>,
    cell_id: nat,
    root_voters: Seq<u64>,
    spec: RustQueueClusterSpec,
) -> Seq<char> {
    let o = out + "[cluster.federation]\n"@;
    let o = with_bool(o, "enabled"@, true);
    let o = with_number(o, "cell_id"@, cell_id);
    let o = with_line(o, "root_voters"@, "["@ + number_list(root_voters) + "]"@);
    let o = with_number(
        o,
        "max_home_cells_per_topic"@,
        spec.cells.max_home_cells_per_topic as nat,
    );
    let o = with_number(o, "route_cache_ms"@, 1000);
    let o = with_number(o, "retry_after_ms"@, 1000);
    let o = with_number(o, "cell_min_nodes"@, spec.cells.min_nodes as nat);
    let o = with_number(o, "cell_target_nodes"@, spec.cells.target_nodes as nat);
    let o = with_number(o, "cell_max_nodes"@, spec.cells.max_nodes as nat);
    with_number(o, "routers_per_cell"@, spec.cells.routers_per_cell as nat)
}

/// The sections on discovery, automation and shutdown.
#[verifier::opaque]
pub open spec fn service_sections(out: Seq<char>, seeds: Seq<Seq<char>>) -> Seq<char> {
    let o = out + "[cluster.discovery]\n"@;
    let o = with_bool(o, "enabled"@, true);
    let o = with_text(o, "listen_address"@, "/ip4/0.0.0.0/tcp/4350"@);
    let o = with_line(o, "seed_addresses"@, "["@ + text_list(seeds) + "]"@);
    let o = with_bool(o, "mdns"@, false);
    let o = with_text(o, "join_token_file"@, "/etc/rustqueue/shared/discovery.token"@);
    let o = with_number(o, "announce_interval_seconds"@, 5);
    let o = with_number(o, "max_known_peers"@, 4096);
    let o = o + "[cluster.automation]\n"@;
    let o = with_bool(o, "enabled"@, true);
    let o = with_number(o, "poll_interval_seconds"@, 15);
    let o = with_number(o, "node_stabilization_seconds"@, 60);
    let o = with_number(o, "node_down_grace_seconds"@, 600);
    let o = with_number(o, "group_cooldown_seconds"@, 600);
    let o = with_number(o, "max_concurrent_migrations"@, 2);
    let o = with_number(o, "max_migrations_per_node"@, 1);
    let o = with_bool(o, "auto_replace_metadata"@, true);
    let o = with_number(o, "operation_history_limit"@, 1000);
    let o = o + "[cluster.shutdown]\n"@;
    let o = with_number(o, "grace_seconds"@, 60);
    let o = with_number(o, "maintenance_default_ttl_seconds"@, 1800);
    with_number(o, "maintenance_max_ttl_seconds"@, 86_400)
}

/// The section of one visible broker.
#[verifier::opaque]
pub open spec fn peer_section(
    out: Seq<char>,
    node_id: u64,
    broker: BrokerView,
    namespace: Seq<char>,
    domains: Map<u64, String>,
    routers: nat,
) -> Seq<char> {
    let address = fqdn(broker, namespace);
    let domain = if domains.contains_key(node_id) {
        domains[node_id]@
    } else {
        "pending"@
    };
    let o = out + "[cluster.nodes."@ + text::dec(node_id as nat) + "]\n"@;
    let o = with_text(o, "raft_address"@, "https://"@ + address + ":4250"@);
    let o = with_text(o, "broadcast_address"@, address);
    let o = with_number(o, "tcp_port"@, 4150);
    let o = with_number(o, "http_port"@, 4151);
    let o = with_text(o, "tls_server_name"@, address);
    let o = with_text(o, "failure_domain"@, domain);
    let o = with_number(o, "cell_id"@, broker.cell_id);
    with_bool(o, "federation_router"@, broker.ordinal < routers)
}

/// The sections of the visible brokers from `k` on, or `None` where a node ID
/// stands for no broker.
pub open spec fn peer_sections(
    out: Seq<char>,
    ids: Seq<u64>,
    k: int,
    brokers: Seq<BrokerView>,
    namespace: Seq<char>,
    domains: Map<u64, String>,
    routers: nat,
) -> Option<Seq<char>>
    decreases ids.len() - k,
{
    if k < 0 || k >= ids.len() {
        Some(out)
    } else {
        match layout::first_broker(brokers, ids[k] as nat) {
            None => None,
            Some(b) => peer_sections(
                peer_section(out, ids[k], brokers[b], namespace, domains, routers),
                ids,
                k + 1,
                brokers,
                namespace,
                domains,
                routers,
            ),
        }
    }
}

/// The number of brokers that vote on metadata first.
pub open spec fn voters(cell: CellView, metadata: nat) -> Seq<u64> {
    node_ids(
        cell.brokers.take(
            if metadata <= cell.brokers.len() {
                metadata as int
            } else {
                cell.brokers.len() as int
            },
        ),
    )
}

/// The text of a configuration, before it is read back.
pub open spec fn config_text(input: ConfigInput<'_>) -> Result<Seq<char>, ConfigError> {
    let cells = input.layout@.cells;
    let spec = *input.spec;
    let ns = input.namespace@;
    match first_cell(cells, input.broker.cell_id as nat, 0) {
        None => Err(ConfigError::CellAbsent),
        Some(c) => {
            let cell = cells[c];
            let all = layout::all_brokers(cells);
            if cell.brokers.len() < spec.replication.metadata || cell.brokers.len()
                < spec.replication.partitions {
                Err(ConfigError::ReplicationUnsatisfied(cell.id as u64))
            } else if all.len() < 3 {
                Err(ConfigError::RootVoters)
            } else if cell.brokers.len() == 0 {
                Err(ConfigError::NoSeed)
            } else {
                let roots = node_ids(all.take(3));
                let visible = with_ids(with_ids(Seq::empty(), node_ids(cell.brokers)), roots);
                let seeds = ordered_pair(
                    peer_address(cell.brokers[0], ns),
                    peer_address(all[0], ns),
                );
                let o = node_sections(
                    ""@,
                    input.broker.node_id as nat,
                    fqdn(input.broker@, ns),
                );
                let o = storage_section(o, spec);
                let o = queue_sections(o, spec);
                let o = security_sections(o);
                let o = cluster_section(
                    o,
                    input.cluster_name@,
                    input.broker.ordinal == 0,
                    voters(cell, spec.replication.metadata as nat),
                    spec,
                );
                let o = federation_section(o, input.broker.cell_id as nat, roots, spec);
                let o = service_sections(o, seeds);
                match peer_sections(
                    o,
                    visible,
                    0,
                    all,
                    ns,
                    input.failure_domains@,
                    spec.cells.routers_per_cell as nat,
                ) {
                    Some(t) => Ok(t),
                    None => Err(ConfigError::BrokerAbsent),
                }
            }
        },
    }
}

fn write_node_sections(output: &mut String, id: u64, address: &str)
    ensures
        final(output)@ == node_sections(old(output)@, id as nat, address@),
{
    proof {
        reveal(node_sections);
    }
    output.append("log_format = \"json\"\n");
    output.append("[node]\n");
    number_line(output, "id", id);
    string_line(output, "broadcast_address", address);
    output.append("[network]\n");
    string_line(output, "tcp_address", "0.0.0.0:4150");
    string_line(output, "http_address", "0.0.0.0:4151");
    string_line(output, "internal_address", "0.0.0.0:4250");
    number_line(output, "advertised_tcp_port", 4150);
    number_line(output, "advertised_http_port", 4151);
}

fn write_storage_section(output: &mut String, spec: &RustQueueClusterSpec)
    ensures
        final(output)@ == storage_section(old(output)@, *spec),
{
    proof {
        reveal(storage_section);
    }
    output.append("[storage]\n");
    string_line(output, "data_path", "/data");
    number_line(output, "max_segment_bytes", 104_857_600);
    number_line(output, "entry_cache_bytes", 67_108_864);
    number_line(output, "payload_read_workers", 0);
    number_line(output, "payload_read_queue", 4096);
    number_line(output, "dedup_max_entries", 1_000_000);
    number_line(output, "dedup_ttl_seconds", 600);
    number_line(
        output,
        "disk_high_watermark_percent",
        spec.storage.disk_high_watermark_percent as u64,
    );
    number_line(
        output,
        "disk_low_watermark_percent",
        spec.storage.disk_low_watermark_percent as u64,
    );
    number_line(output, "min_free_bytes", spec.storage.min_free_bytes);
    bool_line(output, "protective_eviction_enabled", spec.storage.protective_eviction_enabled);
    number_line(output, "disk_pressure_grace_seconds", 60);
}

fn write_queue_sections(output: &mut String, spec: &RustQueueClusterSpec)
    ensures
        final(output)@ == queue_sections(old(output)@, *spec),
{
    proof {
        reveal(queue_sections);
    }
    output.append("[queue]\n");
    number_line(output, "default_partitions", spec.queue.default_partitions as u64);
    number_line(output, "max_partitions_per_topic", spec.queue.max_partitions_per_topic as u64);
    number_line(output, "max_message_bytes", spec.queue.max_message_bytes);
    number_line(output, "max_ack_gap", 65_536);
    number_line(
        output,
        "max_backlog_messages_per_partition",
        spec.queue.max_backlog_messages_per_partition,
    );
    number_line(output, "message_retention_seconds", spec.queue.message_retention_seconds);
    number_line(output, "max_delivery_attempts", spec.queue.max_delivery_attempts as u64);
    output.append("[limits]\n");
    number_line(output, "max_body_bytes", spec.queue.max_body_bytes);
    number_line(output, "connection_publish_inflight_bytes", spec.queue.max_body_bytes);
    number_line(output, "node_publish_inflight_bytes", 536_870_912);
}

fn write_security_sections(output: &mut String)
    ensures
        final(output)@ == security_sections(old(output)@),
{
    proof {
        reveal(security_sections);
    }
    output.append("[security]\n");
    string_line(output, "admin_token_file", "/etc/rustqueue/shared/admin.token");
    output.append("[security.internal_tls]\n");
    string_line(output, "certificate_file", "/etc/rustqueue/tls/tls.crt");
    string_line(output, "private_key_file", "/etc/rustqueue/tls/tls.key");
    string_line(output, "client_ca_file", "/etc/rustqueue/shared/ca.crt");
    string_line(output, "root_ca_file", "/etc/rustqueue/shared/ca.crt");
    bool_line(output, "require_client_certificate", true);
    bool_line(output, "required", true);
}

fn write_cluster_section(
    output: &mut String,
    name: &str,
    first: bool,
    initial_voters: &Vec<u64>,
    spec: &RustQueueClusterSpec,
)
    ensures
        final(output)@ == cluster_section(old(output)@, name@, first, initial_voters@, *spec),
{
    proof {
        reveal(cluster_section);
    }
    output.append("[cluster]\n");
    bool_line(output, "enabled", true);
    bool_line(output, "bootstrap", first);
    string_line(output, "name", name);
    list_line(output, "initial_voters", initial_voters);
    number_line(output, "default_replication_factor", spec.replication.partitions as u64);
    number_line(output, "metadata_replication_factor", spec.replication.metadata as u64);
}

fn write_federation_section(
    output: &mut String,
    cell_id: u64,
    root_voters: &Vec<u64>,
    spec: &RustQueueClusterSpec,
)
    ensures
        final(output)@ == federation_section(old(output)@, cell_id as nat, root_voters@, *spec),
{
    proof {
        reveal(federation_section);
    }
    output.append("[cluster.federation]\n");
    bool_line(output, "enabled", true);
    number_line(output, "cell_id", cell_id);
    list_line(output, "root_voters", root_voters);
    number_line(output, "max_home_cells_per_topic", spec.cells.max_home_cells_per_topic as u64);
    number_line(output, "route_cache_ms", 1000);
    number_line(output, "retry_after_ms", 1000);
    number_line(output, "cell_min_nodes", spec.cells.min_nodes as u64);
    number_line(output, "cell_target_nodes", spec.cells.target_nodes as u64);
    number_line(output, "cell_max_nodes", spec.cells.max_nodes as u64);
    number_line(output, "routers_per_cell", spec.cells.routers_per_cell as u64);
}

fn write_service_sections(output: &mut String, seeds: &Vec<String>)
    ensures
        final(output)@ == service_sections(old(output)@, text::texts(seeds@)),
{
    proof {
        reveal(service_sections);
    }
    output.append("[cluster.discovery]\n");
    bool_line(output, "enabled", true);
    string_line(output, "listen_address", "/ip4/0.0.0.0/tcp/4350");
    string_list_line(output, "seed_addresses", seeds);
    bool_line(output, "mdns", false);
    string_line(output, "join_token_file", "/etc/rustqueue/shared/discovery.token");
    number_line(output, "announce_interval_seconds", 5);
    number_line(output, "max_known_peers", 4096);
    output.append("[cluster.automation]\n");
    bool_line(output, "enabled", true);
    number_line(output, "poll_interval_seconds", 15);
    number_line(output, "node_stabilization_seconds", 60);
    number_line(output, "node_down_grace_seconds", 600);
    number_line(output, "group_cooldown_seconds", 600);
    number_line(output, "max_concurrent_migrations", 2);
    number_line(output, "max_migrations_per_node", 1);
    bool_line(output, "auto_replace_metadata", true);
    number_line(output, "operation_history_limit", 1000);
    output.append("[cluster.shutdown]\n");
    number_line(output, "grace_seconds", 60);
    number_line(output, "maintenance_default_ttl_seconds", 1800);
    number_line(output, "maintenance_max_ttl_seconds", 86_400);
}

fn write_peer_section(output: &mut String, node_id: u64, broker: &BrokerPlan, input: &ConfigInput<'_>)
    ensures
        final(output)@ == peer_section(
            old(output)@,
            node_id,
            broker@,
            input.namespace@,
            input.failure_domains@,
            input.spec.cells.routers_per_cell as nat,
        ),
{
    proof {
        reveal(peer_section);
    }
    let address = pod_fqdn(input, broker);
    output.append("[cluster.nodes.");
    output.append(text::decimal(node_id).as_str());
    output.append("]\n");
    let mut raft = "https://".to_owned();
    raft.append(address.as_str());
    raft.append(":4250");
    string_line(output, "raft_address", raft.as_str());
    string_line(output, "broadcast_address", address.as_str());
    number_line(output, "tcp_port", 4150);
    number_line(output, "http_port", 4151);
    string_line(output, "tls_server_name", address.as_str());
    match input.failure_domains.get(&node_id) {
        Some(domain) => {
            string_line(output, "failure_domain", domain.as_str());
        },
        None => {
            string_line(output, "failure_domain", "pending");
        },
    }
    number_line(output, "cell_id", broker.cell_id);
    bool_line(output, "federation_router", broker.ordinal < input.spec.cells.routers_per_cell);
}

fn first_ids(brokers: &Vec<BrokerPlan>, n: usize) -> (r: Vec<u64>)
    requires
        n <= brokers@.len(),
    ensures
        r@ == node_ids(brokers@.map_values(|b: BrokerPlan| b@).take(n as int)),
{
    let ghost views = brokers@.map_values(|b: BrokerPlan| b@);
    let mut out: Vec<u64> = Vec::new();
    let mut i: usize = 0;
    assert(out@ =~= node_ids(views.take(0)));
    while i < n
        invariant
            i <= n <= brokers@.len(),
            views == brokers@.map_values(|b: BrokerPlan| b@),
            out@ == node_ids(views.take(i as int)),
        decreases n - i,
    {
        assert(views[i as int] == brokers@[i as int]@);
        out.push(brokers[i].node_id);
        assert(node_ids(views.take(i + 1)) =~= node_ids(views.take(i as int)).push(
            brokers@[i as int].node_id,
        ));
        i += 1;
    }
    out
}

fn insert_ids(ids: &mut Vec<u64>, more: &Vec<u64>)
    ensures
        final(ids)@ == with_ids(old(ids)@, more@),
{
    let mut i: usize = 0;
    assert(more@.take(0) =~= Seq::<u64>::empty());
    while i < more.len()
        invariant
            i <= more@.len(),
            ids@ == with_ids(old(ids)@, more@.take(i as int)),
        decreases more@.len() - i,
    {
        assert(more@.take(i + 1).drop_last() =~= more@.take(i as int));
        assert(more@.take(i + 1).last() == more@[i as int]);
        insert_id(ids, more[i]);
        i += 1;
    }
    assert(more@.take(more@.len() as int) =~= more@);
}

/// Renders a configuration without reading it back.
pub fn render_text(input: &ConfigInput<'_>) -> (r: Result<String, ConfigError>)
    ensures
        match r {
            Ok(t) => config_text(*input) == Ok::<Seq<char>, ConfigError>(t@),
            Err(e) => config_text(*input) == Err::<Seq<char>, ConfigError>(e),
        },
{
    let ghost cells = input.layout@.cells;
    let ghost all_views = layout::all_brokers(cells);
    let c: usize = match find_cell(input.layout, input.broker.cell_id) {
        Some(c) => c,
        None => {
            return Err(ConfigError::CellAbsent);
        },
    };
    let cell: &CellPlan = &input.layout.cells[c];
    assert(cells[c as int] == cell@);
    assert(cell@.brokers.len() == cell.brokers@.len());
    let metadata: usize = input.spec.replication.metadata as usize;
    if cell.brokers.len() < metadata || cell.brokers.len()
        < input.spec.replication.partitions as usize {
        return Err(ConfigError::ReplicationUnsatisfied(cell.id));
    }
    let all = input.layout.brokers();
    assert(all_views.len() == all@.len());
    if all.len() < 3 {
        return Err(ConfigError::RootVoters);
    }
    if cell.brokers.len() == 0 {
        return Err(ConfigError::NoSeed);
    }
    let mut roots: Vec<u64> = Vec::new();
    roots.push(all[0].node_id);
    roots.push(all[1].node_id);
    roots.push(all[2].node_id);
    assert(all_views[0] == all@[0]@);
    assert(all_views[1] == all@[1]@);
    assert(all_views[2] == all@[2]@);
    assert(roots@ =~= node_ids(all_views.take(3)));
    let initial_voters = first_ids(&cell.brokers, metadata);
    let members = first_ids(&cell.brokers, cell.brokers.len());
    assert(cell@.brokers.take(cell.brokers@.len() as int) =~= cell@.brokers);
    let mut visible: Vec<u64> = Vec::new();
    insert_ids(&mut visible, &members);
    insert_ids(&mut visible, &roots);
    assert(cell@.brokers[0] == cell.brokers@[0]@);
    let local_seed = p2p_address(input, &cell.brokers[0]);
    let root_seed = p2p_address(input, all[0]);
    let mut seeds: Vec<String> = Vec::new();
    let ghost pair = ordered_pair(local_seed@, root_seed@);
    if text::str_eq(local_seed.as_str(), root_seed.as_str()) {
        seeds.push(local_seed);
    } else if text::text_before(local_seed.as_str(), root_seed.as_str()) {
        seeds.push(local_seed);
        seeds.push(root_seed);
    } else {
        seeds.push(root_seed);
        seeds.push(local_seed);
    }
    assert(text::texts(seeds@) =~= pair);
    let mut output = "".to_owned();
    write_node_sections(
        &mut output,
        input.broker.node_id,
        pod_fqdn(input, input.broker).as_str(),
    );
    write_storage_section(&mut output, input.spec);
    write_queue_sections(&mut output, input.spec);
    write_security_sections(&mut output);
    write_cluster_section(
        &mut output,
        input.cluster_name,
        input.broker.ordinal == 0,
        &initial_voters,
        input.spec,
    );
    write_federation_section(&mut output, input.broker.cell_id, &roots, input.spec);
    write_service_sections(&mut output, &seeds);
    let ghost whole = peer_sections(
        output@,
        visible@,
        0,
        all_views,
        input.namespace@,
        input.failure_domains@,
        input.spec.cells.routers_per_cell as nat,
    );
    let mut i: usize = 0;
    while i < visible.len()
        invariant
            i <= visible@.len(),
            all_views == layout::all_brokers(input.layout@.cells),
            whole == peer_sections(
                output@,
                visible@,
                i as int,
                all_views,
                input.namespace@,
                input.failure_domains@,
                input.spec.cells.routers_per_cell as nat,
            ),
            whole is None ==> config_text(*input) == Err::<Seq<char>, ConfigError>(
                ConfigError::BrokerAbsent,
            ),
        decreases visible@.len() - i,
    {
        match input.layout.broker(visible[i]) {
            Some(broker) => {
                write_peer_section(&mut output, visible[i], broker, input);
            },
            None => {
                return Err(ConfigError::BrokerAbsent);
            },
        }
        i += 1;
    }
    Ok(output)
}

/// A rendered configuration, where it was read back.
pub fn checked_config(output: String, valid: bool) -> (r: Result<String, ConfigError>)
    ensures
        r == (if valid {
            Ok::<String, ConfigError>(output)
        } else {
            Err::<String, ConfigError>(ConfigError::InvalidToml)
        }),
{
    if valid {
        Ok(output)
    } else {
        Err(ConfigError::InvalidToml)
    }
}

/// Renders the configuration of a broker. It covers the brokers of its own cell
/// and the first three of the layout, which carry the root group.
pub fn render(input: &ConfigInput<'_>) -> (r: Result<String, ConfigError>)
    ensures
        match r {
            Ok(t) => config_text(*input) == Ok::<Seq<char>, ConfigError>(t@) && toml_reads(t@),
            Err(ConfigError::InvalidToml) => config_text(*input) is Ok && !toml_reads(
                config_text(*input)->Ok_0,
            ),
            Err(e) => config_text(*input) == Err::<Seq<char>, ConfigError>(e),
        },
{
    let output = match render_text(input) {
        Ok(t) => t,
        Err(e) => {
            assert(e != ConfigError::InvalidToml);
            return Err(e);
        },
    };
    let valid = reads_as_toml(output.as_str());
    checked_config(output, valid)
}

/// Brokers outside the cell of a broker are visible to it only where they carry
/// the root group.
pub proof fn law_visible_brokers_are_of_the_cell_or_the_root(
    cell: Seq<u64>,
    roots: Seq<u64>,
    id: u64,
)
    ensures
        with_ids(with_ids(Seq::empty(), cell), roots).contains(id) <==> cell.contains(id)
            || roots.contains(id),
{
    lemma_with_ids(Seq::empty(), cell, id);
    lemma_with_ids(with_ids(Seq::empty(), cell), roots, id);
}

proof fn lemma_with_id(ids: Seq<u64>, id: u64, x: u64)
    ensures
        with_id(ids, id).contains(x) <==> ids.contains(x) || x == id,
    decreases ids.len(),
{
    if ids.len() > 0 && ids.last() == id {
        assert(ids[ids.len() - 1] == id);
    } else if ids.len() > 0 && id < ids.last() {
        let d = ids.drop_last();
        lemma_with_id(d, id, x);
        assert(ids =~= d.push(ids.last()));
        let w = with_id(d, id);
        assert(with_id(ids, id) == w.push(ids.last()));
        lemma_push_contains(w, ids.last(), x);
        lemma_push_contains(d, ids.last(), x);
    } else {
        lemma_push_contains(ids, id, x);
    }
}

proof fn lemma_push_contains(s: Seq<u64>, y: u64, x: u64)
    ensures
        s.push(y).contains(x) <==> s.contains(x) || x == y,
{
    if s.contains(x) {
        let i = choose|i: int| 0 <= i < s.len() && s[i] == x;
        assert(s.push(y)[i] == x);
    }
    if x == y {
        assert(s.push(y)[s.len() as int] == x);
    }
    if s.push(y).contains(x) {
        let i = choose|i: int| 0 <= i < s.push(y).len() && s.push(y)[i] == x;
        if i < s.len() {
            assert(s[i] == x);
        }
    }
}

proof fn lemma_with_ids(ids: Seq<u64>, more: Seq<u64>, x: u64)
    ensures
        with_ids(ids, more).contains(x) <==> ids.contains(x) || more.contains(x),
    decreases more.len(),
{
    if more.len() > 0 {
        let d = more.drop_last();
        lemma_with_ids(ids, d, x);
        lemma_with_id(with_ids(ids, d), more.last(), x);
        assert(more =~= d.push(more.last()));
        lemma_push_contains(d, more.last(), x);
    }
}

// What the sections hold.

/// Whether a line of a text gives a value to a key, line end and all.
pub open spec fn sets(t: Seq<char>, key: Seq<char>, value: Seq<char>) -> bool {
    exists|p: Seq<char>| #[trigger] sets_behind(t, p, key, value)
}

/// Whether the line behind some others gives a value to a key.
pub open spec fn sets_behind(
    t: Seq<char>,
    p: Seq<char>,
    key: Seq<char>,
    value: Seq<char>,
) -> bool {
    &&& p.len() == 0 || p.last() == '\n'
    &&& text::starts(t, p + key + " = "@ + value + "\n"@)
}

proof fn lemma_more(x: Seq<char>, y: Seq<char>)
    ensures
        forall|k: Seq<char>, v: Seq<char>| sets(x, k, v) ==> #[trigger] sets(x + y, k, v),
{
    assert forall|k: Seq<char>, v: Seq<char>| sets(x, k, v) implies #[trigger] sets(x + y, k, v) by {
        let p = choose|p: Seq<char>| #[trigger] sets_behind(x, p, k, v);
        text::lemma_starts_sum(x, y, p + k + " = "@ + v + "\n"@);
        assert(sets_behind(x + y, p, k, v));
    }
}

proof fn lemma_line(o: Seq<char>, name: Seq<char>, value: Seq<char>)
    requires
        o.len() > 0 && o.last() == '\n',
    ensures
        sets(with_line(o, name, value), name, value),
        with_line(o, name, value).len() > 0 && with_line(o, name, value).last() == '\n',
        forall|k: Seq<char>, v: Seq<char>|
            sets(o, k, v) ==> #[trigger] sets(with_line(o, name, value), k, v),
        forall|p: Seq<char>|
            text::starts(o, p) ==> #[trigger] text::starts(with_line(o, name, value), p),
{
    let t = with_line(o, name, value);
    reveal_strlit("\n");
    assert("\n"@.len() == 1 && "\n"@[0] == '\n');
    assert(t.take(t.len() as int) =~= t);
    assert(sets_behind(t, o, name, value));
    let y = name + " = "@ + value + "\n"@;
    assert(t =~= o + y);
    lemma_more(o, y);
    assert forall|p: Seq<char>| text::starts(o, p) implies #[trigger] text::starts(t, p) by {
        text::lemma_starts_sum(o, y, p);
    }
}

proof fn lemma_heading(o: Seq<char>, heading: Seq<char>)
    requires
        heading.len() > 0,
        heading.last() == '\n',
    ensures
        (o + heading).len() > 0 && (o + heading).last() == '\n',
        text::starts(o + heading, o + heading),
        forall|k: Seq<char>, v: Seq<char>| sets(o, k, v) ==> #[trigger] sets(o + heading, k, v),
        forall|p: Seq<char>| text::starts(o, p) ==> #[trigger] text::starts(o + heading, p),
{
    lemma_more(o, heading);
    assert((o + heading).take((o + heading).len() as int) =~= o + heading);
    assert forall|p: Seq<char>| text::starts(o, p) implies #[trigger] text::starts(o + heading, p) by {
        text::lemma_starts_sum(o, heading, p);
    }
}

proof fn lemma_prefix(out: Seq<char>, o: Seq<char>, name: Seq<char>, value: Seq<char>)
    ensures
        with_line(out + o, name, value) == out + with_line(o, name, value),
{
    assert(with_line(out + o, name, value) =~= out + with_line(o, name, value));
}

/// A broker is configured with its own number and address, and listens where brokers do.
pub proof fn law_nodes_are_configured(
    out: Seq<char>,
    id: nat,
    address: Seq<char>,
)
    ensures
        sets(
            node_sections(out, id, address),
            "id"@,
            text::dec(id),
        ),
        sets(
            node_sections(out, id, address),
            "broadcast_address"@,
            toml_string(address),
        ),
        sets(
            node_sections(out, id, address),
            "tcp_address"@,
            toml_string("0.0.0.0:4150"@),
        ),
        sets(
            node_sections(out, id, address),
            "http_address"@,
            toml_string("0.0.0.0:4151"@),
        ),
        sets(
            node_sections(out, id, address),
            "internal_address"@,
            toml_string("0.0.0.0:4250"@),
        ),
        sets(
            node_sections(out, id, address),
            "advertised_tcp_port"@,
            text::dec(4150),
        ),
        sets(
            node_sections(out, id, address),
            "advertised_http_port"@,
            text::dec(4151),
        ),
        node_sections(out, id, address) == out + node_sections(Seq::empty(), id, address),
{
    reveal(node_sections);
    reveal_strlit("[network]\n");
    reveal_strlit("[node]\n");
    reveal_strlit("log_format = \"json\"\n");
    let o0 = out;
    let e0 = Seq::<char>::empty();
    assert(o0 =~= out + e0);
    assert("log_format = \"json\"\n"@.len() == 20 && "log_format = \"json\"\n"@.last() == '\n');
    lemma_heading(o0, "log_format = \"json\"\n"@);
    let o1 = o0 + "log_format = \"json\"\n"@;
    let e1 = e0 + "log_format = \"json\"\n"@;
    assert(o1 =~= out + e1);
    assert("[node]\n"@.len() == 7 && "[node]\n"@.last() == '\n');
    lemma_heading(o1, "[node]\n"@);
    let o2 = o1 + "[node]\n"@;
    let e2 = e1 + "[node]\n"@;
    assert(o2 =~= out + e2);
    let v = text::dec(id);
    lemma_line(o2, "id"@, v);
    let o3 = with_line(o2, "id"@, v);
    lemma_prefix(out, e2, "id"@, v);
    let e3 = with_line(e2, "id"@, v);
    let v = toml_string(address);
    lemma_line(o3, "broadcast_address"@, v);
    let o4 = with_line(o3, "broadcast_address"@, v);
    lemma_prefix(out, e3, "broadcast_address"@, v);
    let e4 = with_line(e3, "broadcast_address"@, v);
    assert("[network]\n"@.len() == 10 && "[network]\n"@.last() == '\n');
    lemma_heading(o4, "[network]\n"@);
    let o5 = o4 + "[network]\n"@;
    let e5 = e4 + "[network]\n"@;
    assert(o5 =~= out + e5);
    let v = toml_string("0.0.0.0:4150"@);
    lemma_line(o5, "tcp_address"@, v);
    let o6 = with_line(o5, "tcp_address"@, v);
    lemma_prefix(out, e5, "tcp_address"@, v);
    let e6 = with_line(e5, "tcp_address"@, v);
    let v = toml_string("0.0.0.0:4151"@);
    lemma_line(o6, "http_address"@, v);
    let o7 = with_line(o6, "http_address"@, v);
    lemma_prefix(out, e6, "http_address"@, v);
    let e7 = with_line(e6, "http_address"@, v);
    let v = toml_string("0.0.0.0:4250"@);
    lemma_line(o7, "internal_address"@, v);
    let o8 = with_line(o7, "internal_address"@, v);
    lemma_prefix(out, e7, "internal_address"@, v);
    let e8 = with_line(e7, "internal_address"@, v);
    let v = text::dec(4150);
    lemma_line(o8, "advertised_tcp_port"@, v);
    let o9 = with_line(o8, "advertised_tcp_port"@, v);
    lemma_prefix(out, e8, "advertised_tcp_port"@, v);
    let e9 = with_line(e8, "advertised_tcp_port"@, v);
    let v = text::dec(4151);
    lemma_line(o9, "advertised_http_port"@, v);
    let o10 = with_line(o9, "advertised_http_port"@, v);
    lemma_prefix(out, e9, "advertised_http_port"@, v);
    let e10 = with_line(e9, "advertised_http_port"@, v);
    assert(o10 == node_sections(out, id, address));
    assert(e10 == node_sections(Seq::empty(), id, address));
}

/// Each setting of the storage has its own value: the high watermark the high one, the low
/// watermark the low one.
pub proof fn law_storage_is_configured(
    out: Seq<char>,
    spec: RustQueueClusterSpec,
)
    ensures
        sets(
            storage_section(out, spec),
            "data_path"@,
            toml_string("/data"@),
        ),
        sets(
            storage_section(out, spec),
            "max_segment_bytes"@,
            text::dec(104_857_600),
        ),
        sets(
            storage_section(out, spec),
            "entry_cache_bytes"@,
            text::dec(67_108_864),
        ),
        sets(
            storage_section(out, spec),
            "payload_read_workers"@,
            text::dec(0),
        ),
        sets(
            storage_section(out, spec),
            "payload_read_queue"@,
            text::dec(4096),
        ),
        sets(
            storage_section(out, spec),
            "dedup_max_entries"@,
            text::dec(1_000_000),
        ),
        sets(
            storage_section(out, spec),
            "dedup_ttl_seconds"@,
            text::dec(600),
        ),
        sets(
            storage_section(out, spec),
            "disk_high_watermark_percent"@,
            text::dec(spec.storage.disk_high_watermark_percent as nat),
        ),
        sets(
            storage_section(out, spec),
            "disk_low_watermark_percent"@,
            text::dec(spec.storage.disk_low_watermark_percent as nat),
        ),
        sets(
            storage_section(out, spec),
            "min_free_bytes"@,
            text::dec(spec.storage.min_free_bytes as nat),
        ),
        sets(
            storage_section(out, spec),
            "protective_eviction_enabled"@,
            if spec.storage.protective_eviction_enabled {
                "true"@
            } else {
                "false"@
            },
        ),
        sets(
            storage_section(out, spec),
            "disk_pressure_grace_seconds"@,
            text::dec(60),
        ),
        storage_section(out, spec) == out + storage_section(Seq::empty(), spec),
{
    reveal(storage_section);
    reveal_strlit("[storage]\n");
    let o0 = out;
    let e0 = Seq::<char>::empty();
    assert(o0 =~= out + e0);
    assert("[storage]\n"@.len() == 10 && "[storage]\n"@.last() == '\n');
    lemma_heading(o0, "[storage]\n"@);
    let o1 = o0 + "[storage]\n"@;
    let e1 = e0 + "[storage]\n"@;
    assert(o1 =~= out + e1);
    let v = toml_string("/data"@);
    lemma_line(o1, "data_path"@, v);
    let o2 = with_line(o1, "data_path"@, v);
    lemma_prefix(out, e1, "data_path"@, v);
    let e2 = with_line(e1, "data_path"@, v);
    let v = text::dec(104_857_600);
    lemma_line(o2, "max_segment_bytes"@, v);
    let o3 = with_line(o2, "max_segment_bytes"@, v);
    lemma_prefix(out, e2, "max_segment_bytes"@, v);
    let e3 = with_line(e2, "max_segment_bytes"@, v);
    let v = text::dec(67_108_864);
    lemma_line(o3, "entry_cache_bytes"@, v);
    let o4 = with_line(o3, "entry_cache_bytes"@, v);
    lemma_prefix(out, e3, "entry_cache_bytes"@, v);
    let e4 = with_line(e3, "entry_cache_bytes"@, v);
    let v = text::dec(0);
    lemma_line(o4, "payload_read_workers"@, v);
    let o5 = with_line(o4, "payload_read_workers"@, v);
    lemma_prefix(out, e4, "payload_read_workers"@, v);
    let e5 = with_line(e4, "payload_read_workers"@, v);
    let v = text::dec(4096);
    lemma_line(o5, "payload_read_queue"@, v);
    let o6 = with_line(o5, "payload_read_queue"@, v);
    lemma_prefix(out, e5, "payload_read_queue"@, v);
    let e6 = with_line(e5, "payload_read_queue"@, v);
    let v = text::dec(1_000_000);
    lemma_line(o6, "dedup_max_entries"@, v);
    let o7 = with_line(o6, "dedup_max_entries"@, v);
    lemma_prefix(out, e6, "dedup_max_entries"@, v);
    let e7 = with_line(e6, "dedup_max_entries"@, v);
    let v = text::dec(600);
    lemma_line(o7, "dedup_ttl_seconds"@, v);
    let o8 = with_line(o7, "dedup_ttl_seconds"@, v);
    lemma_prefix(out, e7, "dedup_ttl_seconds"@, v);
    let e8 = with_line(e7, "dedup_ttl_seconds"@, v);
    let v = text::dec(spec.storage.disk_high_watermark_percent as nat);
    lemma_line(o8, "disk_high_watermark_percent"@, v);
    let o9 = with_line(o8, "disk_high_watermark_percent"@, v);
    lemma_prefix(out, e8, "disk_high_watermark_percent"@, v);
    let e9 = with_line(e8, "disk_high_watermark_percent"@, v);
    let v = text::dec(spec.storage.disk_low_watermark_percent as nat);
    lemma_line(o9, "disk_low_watermark_percent"@, v);
    let o10 = with_line(o9, "disk_low_watermark_percent"@, v);
    lemma_prefix(out, e9, "disk_low_watermark_percent"@, v);
    let e10 = with_line(e9, "disk_low_watermark_percent"@, v);
    let v = text::dec(spec.storage.min_free_bytes as nat);
    lemma_line(o10, "min_free_bytes"@, v);
    let o11 = with_line(o10, "min_free_bytes"@, v);
    lemma_prefix(out, e10, "min_free_bytes"@, v);
    let e11 = with_line(e10, "min_free_bytes"@, v);
    let v = if spec.storage.protective_eviction_enabled {
        "true"@
    } else {
        "false"@
    };
    lemma_line(o11, "protective_eviction_enabled"@, v);
    let o12 = with_line(o11, "protective_eviction_enabled"@, v);
    lemma_prefix(out, e11, "protective_eviction_enabled"@, v);
    let e12 = with_line(e11, "protective_eviction_enabled"@, v);
    let v = text::dec(60);
    lemma_line(o12, "disk_pressure_grace_seconds"@, v);
    let o13 = with_line(o12, "disk_pressure_grace_seconds"@, v);
    lemma_prefix(out, e12, "disk_pressure_grace_seconds"@, v);
    let e13 = with_line(e12, "disk_pressure_grace_seconds"@, v);
    assert(o13 == storage_section(out, spec));
    assert(e13 == storage_section(Seq::empty(), spec));
}

/// Each setting of the queues and limits has the value of its own field.
pub proof fn law_queues_are_configured(
    out: Seq<char>,
    spec: RustQueueClusterSpec,
)
    ensures
        sets(
            queue_sections(out, spec),
            "default_partitions"@,
            text::dec(spec.queue.default_partitions as nat),
        ),
        sets(
            queue_sections(out, spec),
            "max_partitions_per_topic"@,
            text::dec(spec.queue.max_partitions_per_topic as nat),
        ),
        sets(
            queue_sections(out, spec),
            "max_message_bytes"@,
            text::dec(spec.queue.max_message_bytes as nat),
        ),
        sets(
            queue_sections(out, spec),
            "max_ack_gap"@,
            text::dec(65_536),
        ),
        sets(
            queue_sections(out, spec),
            "max_backlog_messages_per_partition"@,
            text::dec(spec.queue.max_backlog_messages_per_partition as nat),
        ),
        sets(
            queue_sections(out, spec),
            "message_retention_seconds"@,
            text::dec(spec.queue.message_retention_seconds as nat),
        ),
        sets(
            queue_sections(out, spec),
            "max_delivery_attempts"@,
            text::dec(spec.queue.max_delivery_attempts as nat),
        ),
        sets(
            queue_sections(out, spec),
            "max_body_bytes"@,
            text::dec(spec.queue.max_body_bytes as nat),
        ),
        sets(
            queue_sections(out, spec),
            "connection_publish_inflight_bytes"@,
            text::dec(spec.queue.max_body_bytes as nat),
        ),
        sets(
            queue_sections(out, spec),
            "node_publish_inflight_bytes"@,
            text::dec(536_870_912),
        ),
        queue_sections(out, spec) == out + queue_sections(Seq::empty(), spec),
{
    reveal(queue_sections);
    reveal_strlit("[limits]\n");
    reveal_strlit("[queue]\n");
    let o0 = out;
    let e0 = Seq::<char>::empty();
    assert(o0 =~= out + e0);
    assert("[queue]\n"@.len() == 8 && "[queue]\n"@.last() == '\n');
    lemma_heading(o0, "[queue]\n"@);
    let o1 = o0 + "[queue]\n"@;
    let e1 = e0 + "[queue]\n"@;
    assert(o1 =~= out + e1);
    let v = text::dec(spec.queue.default_partitions as nat);
    lemma_line(o1, "default_partitions"@, v);
    let o2 = with_line(o1, "default_partitions"@, v);
    lemma_prefix(out, e1, "default_partitions"@, v);
    let e2 = with_line(e1, "default_partitions"@, v);
    let v = text::dec(spec.queue.max_partitions_per_topic as nat);
    lemma_line(o2, "max_partitions_per_topic"@, v);
    let o3 = with_line(o2, "max_partitions_per_topic"@, v);
    lemma_prefix(out, e2, "max_partitions_per_topic"@, v);
    let e3 = with_line(e2, "max_partitions_per_topic"@, v);
    let v = text::dec(spec.queue.max_message_bytes as nat);
    lemma_line(o3, "max_message_bytes"@, v);
    let o4 = with_line(o3, "max_message_bytes"@, v);
    lemma_prefix(out, e3, "max_message_bytes"@, v);
    let e4 = with_line(e3, "max_message_bytes"@, v);
    let v = text::dec(65_536);
    lemma_line(o4, "max_ack_gap"@, v);
    let o5 = with_line(o4, "max_ack_gap"@, v);
    lemma_prefix(out, e4, "max_ack_gap"@, v);
    let e5 = with_line(e4, "max_ack_gap"@, v);
    let v = text::dec(spec.queue.max_backlog_messages_per_partition as nat);
    lemma_line(o5, "max_backlog_messages_per_partition"@, v);
    let o6 = with_line(o5, "max_backlog_messages_per_partition"@, v);
    lemma_prefix(out, e5, "max_backlog_messages_per_partition"@, v);
    let e6 = with_line(e5, "max_backlog_messages_per_partition"@, v);
    let v = text::dec(spec.queue.message_retention_seconds as nat);
    lemma_line(o6, "message_retention_seconds"@, v);
    let o7 = with_line(o6, "message_retention_seconds"@, v);
    lemma_prefix(out, e6, "message_retention_seconds"@, v);
    let e7 = with_line(e6, "message_retention_seconds"@, v);
    let v = text::dec(spec.queue.max_delivery_attempts as nat);
    lemma_line(o7, "max_delivery_attempts"@, v);
    let o8 = with_line(o7, "max_delivery_attempts"@, v);
    lemma_prefix(out, e7, "max_delivery_attempts"@, v);
    let e8 = with_line(e7, "max_delivery_attempts"@, v);
    assert("[limits]\n"@.len() == 9 && "[limits]\n"@.last() == '\n');
    lemma_heading(o8, "[limits]\n"@);
    let o9 = o8 + "[limits]\n"@;
    let e9 = e8 + "[limits]\n"@;
    assert(o9 =~= out + e9);
    let v = text::dec(spec.queue.max_body_bytes as nat);
    lemma_line(o9, "max_body_bytes"@, v);
    let o10 = with_line(o9, "max_body_bytes"@, v);
    lemma_prefix(out, e9, "max_body_bytes"@, v);
    let e10 = with_line(e9, "max_body_bytes"@, v);
    let v = text::dec(spec.queue.max_body_bytes as nat);
    lemma_line(o10, "connection_publish_inflight_bytes"@, v);
    let o11 = with_line(o10, "connection_publish_inflight_bytes"@, v);
    lemma_prefix(out, e10, "connection_publish_inflight_bytes"@, v);
    let e11 = with_line(e10, "connection_publish_inflight_bytes"@, v);
    let v = text::dec(536_870_912);
    lemma_line(o11, "node_publish_inflight_bytes"@, v);
    let o12 = with_line(o11, "node_publish_inflight_bytes"@, v);
    lemma_prefix(out, e11, "node_publish_inflight_bytes"@, v);
    let e12 = with_line(e11, "node_publish_inflight_bytes"@, v);
    assert(o12 == queue_sections(out, spec));
    assert(e12 == queue_sections(Seq::empty(), spec));
}

/// Brokers speak to each other with certificates on both sides, from the files that are
/// mounted.
pub proof fn law_security_is_configured(
    out: Seq<char>,
)
    ensures
        sets(
            security_sections(out),
            "admin_token_file"@,
            toml_string("/etc/rustqueue/shared/admin.token"@),
        ),
        sets(
            security_sections(out),
            "certificate_file"@,
            toml_string("/etc/rustqueue/tls/tls.crt"@),
        ),
        sets(
            security_sections(out),
            "private_key_file"@,
            toml_string("/etc/rustqueue/tls/tls.key"@),
        ),
        sets(
            security_sections(out),
            "client_ca_file"@,
            toml_string("/etc/rustqueue/shared/ca.crt"@),
        ),
        sets(
            security_sections(out),
            "root_ca_file"@,
            toml_string("/etc/rustqueue/shared/ca.crt"@),
        ),
        sets(
            security_sections(out),
            "require_client_certificate"@,
            "true"@,
        ),
        sets(
            security_sections(out),
            "required"@,
            "true"@,
        ),
        security_sections(out) == out + security_sections(Seq::empty()),
{
    reveal(security_sections);
    reveal_strlit("[security.internal_tls]\n");
    reveal_strlit("[security]\n");
    let o0 = out;
    let e0 = Seq::<char>::empty();
    assert(o0 =~= out + e0);
    assert("[security]\n"@.len() == 11 && "[security]\n"@.last() == '\n');
    lemma_heading(o0, "[security]\n"@);
    let o1 = o0 + "[security]\n"@;
    let e1 = e0 + "[security]\n"@;
    assert(o1 =~= out + e1);
    let v = toml_string("/etc/rustqueue/shared/admin.token"@);
    lemma_line(o1, "admin_token_file"@, v);
    let o2 = with_line(o1, "admin_token_file"@, v);
    lemma_prefix(out, e1, "admin_token_file"@, v);
    let e2 = with_line(e1, "admin_token_file"@, v);
    assert("[security.internal_tls]\n"@.len() == 24 && "[security.internal_tls]\n"@.last() == '\n');
    lemma_heading(o2, "[security.internal_tls]\n"@);
    let o3 = o2 + "[security.internal_tls]\n"@;
    let e3 = e2 + "[security.internal_tls]\n"@;
    assert(o3 =~= out + e3);
    let v = toml_string("/etc/rustqueue/tls/tls.crt"@);
    lemma_line(o3, "certificate_file"@, v);
    let o4 = with_line(o3, "certificate_file"@, v);
    lemma_prefix(out, e3, "certificate_file"@, v);
    let e4 = with_line(e3, "certificate_file"@, v);
    let v = toml_string("/etc/rustqueue/tls/tls.key"@);
    lemma_line(o4, "private_key_file"@, v);
    let o5 = with_line(o4, "private_key_file"@, v);
    lemma_prefix(out, e4, "private_key_file"@, v);
    let e5 = with_line(e4, "private_key_file"@, v);
    let v = toml_string("/etc/rustqueue/shared/ca.crt"@);
    lemma_line(o5, "client_ca_file"@, v);
    let o6 = with_line(o5, "client_ca_file"@, v);
    lemma_prefix(out, e5, "client_ca_file"@, v);
    let e6 = with_line(e5, "client_ca_file"@, v);
    let v = toml_string("/etc/rustqueue/shared/ca.crt"@);
    lemma_line(o6, "root_ca_file"@, v);
    let o7 = with_line(o6, "root_ca_file"@, v);
    lemma_prefix(out, e6, "root_ca_file"@, v);
    let e7 = with_line(e6, "root_ca_file"@, v);
    let v = "true"@;
    lemma_line(o7, "require_client_certificate"@, v);
    let o8 = with_line(o7, "require_client_certificate"@, v);
    lemma_prefix(out, e7, "require_client_certificate"@, v);
    let e8 = with_line(e7, "require_client_certificate"@, v);
    let v = "true"@;
    lemma_line(o8, "required"@, v);
    let o9 = with_line(o8, "required"@, v);
    lemma_prefix(out, e8, "required"@, v);
    let e9 = with_line(e8, "required"@, v);
    assert(o9 == security_sections(out));
    assert(e9 == security_sections(Seq::empty()));
}

/// The cluster has its name and its first voters, and only a first broker founds it.
pub proof fn law_clusters_are_configured(
    out: Seq<char>,
    name: Seq<char>,
    first: bool,
    initial_voters: Seq<u64>,
    spec: RustQueueClusterSpec,
)
    ensures
        sets(
            cluster_section(out, name, first, initial_voters, spec),
            "enabled"@,
            "true"@,
        ),
        sets(
            cluster_section(out, name, first, initial_voters, spec),
            "bootstrap"@,
            if first {
                "true"@
            } else {
                "false"@
            },
        ),
        sets(
            cluster_section(out, name, first, initial_voters, spec),
            "name"@,
            toml_string(name),
        ),
        sets(
            cluster_section(out, name, first, initial_voters, spec),
            "initial_voters"@,
            "["@ + number_list(initial_voters) + "]"@,
        ),
        sets(
            cluster_section(out, name, first, initial_voters, spec),
            "default_replication_factor"@,
            text::dec(spec.replication.partitions as nat),
        ),
        sets(
            cluster_section(out, name, first, initial_voters, spec),
            "metadata_replication_factor"@,
            text::dec(spec.replication.metadata as nat),
        ),
        cluster_section(out, name, first, initial_voters, spec) == out + cluster_section(Seq::empty(), name, first, initial_voters, spec),
{
    reveal(cluster_section);
    reveal_strlit("[cluster]\n");
    let o0 = out;
    let e0 = Seq::<char>::empty();
    assert(o0 =~= out + e0);
    assert("[cluster]\n"@.len() == 10 && "[cluster]\n"@.last() == '\n');
    lemma_heading(o0, "[cluster]\n"@);
    let o1 = o0 + "[cluster]\n"@;
    let e1 = e0 + "[cluster]\n"@;
    assert(o1 =~= out + e1);
    let v = "true"@;
    lemma_line(o1, "enabled"@, v);
    let o2 = with_line(o1, "enabled"@, v);
    lemma_prefix(out, e1, "enabled"@, v);
    let e2 = with_line(e1, "enabled"@, v);
    let v = if first {
        "true"@
    } else {
        "false"@
    };
    lemma_line(o2, "bootstrap"@, v);
    let o3 = with_line(o2, "bootstrap"@, v);
    lemma_prefix(out, e2, "bootstrap"@, v);
    let e3 = with_line(e2, "bootstrap"@, v);
    let v = toml_string(name);
    lemma_line(o3, "name"@, v);
    let o4 = with_line(o3, "name"@, v);
    lemma_prefix(out, e3, "name"@, v);
    let e4 = with_line(e3, "name"@, v);
    let v = "["@ + number_list(initial_voters) + "]"@;
    lemma_line(o4, "initial_voters"@, v);
    let o5 = with_line(o4, "initial_voters"@, v);
    lemma_prefix(out, e4, "initial_voters"@, v);
    let e5 = with_line(e4, "initial_voters"@, v);
    let v = text::dec(spec.replication.partitions as nat);
    lemma_line(o5, "default_replication_factor"@, v);
    let o6 = with_line(o5, "default_replication_factor"@, v);
    lemma_prefix(out, e5, "default_replication_factor"@, v);
    let e6 = with_line(e5, "default_replication_factor"@, v);
    let v = text::dec(spec.replication.metadata as nat);
    lemma_line(o6, "metadata_replication_factor"@, v);
    let o7 = with_line(o6, "metadata_replication_factor"@, v);
    lemma_prefix(out, e6, "metadata_replication_factor"@, v);
    let e7 = with_line(e6, "metadata_replication_factor"@, v);
    assert(o7 == cluster_section(out, name, first, initial_voters, spec));
    assert(e7 == cluster_section(Seq::empty(), name, first, initial_voters, spec));
}

/// The cells have their number, their root voters and their sizes.
pub proof fn law_federations_are_configured(
    out: Seq<char>,
    cell_id: nat,
    root_voters: Seq<u64>,
    spec: RustQueueClusterSpec,
)
    ensures
        sets(
            federation_section(out, cell_id, root_voters, spec),
            "enabled"@,
            "true"@,
        ),
        sets(
            federation_section(out, cell_id, root_voters, spec),
            "cell_id"@,
            text::dec(cell_id),
        ),
        sets(
            federation_section(out, cell_id, root_voters, spec),
            "root_voters"@,
            "["@ + number_list(root_voters) + "]"@,
        ),
        sets(
            federation_section(out, cell_id, root_voters, spec),
            "max_home_cells_per_topic"@,
            text::dec(spec.cells.max_home_cells_per_topic as nat),
        ),
        sets(
            federation_section(out, cell_id, root_voters, spec),
            "route_cache_ms"@,
            text::dec(1000),
        ),
        sets(
            federation_section(out, cell_id, root_voters, spec),
            "retry_after_ms"@,
            text::dec(1000),
        ),
        sets(
            federation_section(out, cell_id, root_voters, spec),
            "cell_min_nodes"@,
            text::dec(spec.cells.min_nodes as nat),
        ),
        sets(
            federation_section(out, cell_id, root_voters, spec),
            "cell_target_nodes"@,
            text::dec(spec.cells.target_nodes as nat),
        ),
        sets(
            federation_section(out, cell_id, root_voters, spec),
            "cell_max_nodes"@,
            text::dec(spec.cells.max_nodes as nat),
        ),
        sets(
            federation_section(out, cell_id, root_voters, spec),
            "routers_per_cell"@,
            text::dec(spec.cells.routers_per_cell as nat),
        ),
        federation_section(out, cell_id, root_voters, spec) == out + federation_section(Seq::empty(), cell_id, root_voters, spec),
{
    reveal(federation_section);
    reveal_strlit("[cluster.federation]\n");
    let o0 = out;
    let e0 = Seq::<char>::empty();
    assert(o0 =~= out + e0);
    assert("[cluster.federation]\n"@.len() == 21 && "[cluster.federation]\n"@.last() == '\n');
    lemma_heading(o0, "[cluster.federation]\n"@);
    let o1 = o0 + "[cluster.federation]\n"@;
    let e1 = e0 + "[cluster.federation]\n"@;
    assert(o1 =~= out + e1);
    let v = "true"@;
    lemma_line(o1, "enabled"@, v);
    let o2 = with_line(o1, "enabled"@, v);
    lemma_prefix(out, e1, "enabled"@, v);
    let e2 = with_line(e1, "enabled"@, v);
    let v = text::dec(cell_id);
    lemma_line(o2, "cell_id"@, v);
    let o3 = with_line(o2, "cell_id"@, v);
    lemma_prefix(out, e2, "cell_id"@, v);
    let e3 = with_line(e2, "cell_id"@, v);
    let v = "["@ + number_list(root_voters) + "]"@;
    lemma_line(o3, "root_voters"@, v);
    let o4 = with_line(o3, "root_voters"@, v);
    lemma_prefix(out, e3, "root_voters"@, v);
    let e4 = with_line(e3, "root_voters"@, v);
    let v = text::dec(spec.cells.max_home_cells_per_topic as nat);
    lemma_line(o4, "max_home_cells_per_topic"@, v);
    let o5 = with_line(o4, "max_home_cells_per_topic"@, v);
    lemma_prefix(out, e4, "max_home_cells_per_topic"@, v);
    let e5 = with_line(e4, "max_home_cells_per_topic"@, v);
    let v = text::dec(1000);
    lemma_line(o5, "route_cache_ms"@, v);
    let o6 = with_line(o5, "route_cache_ms"@, v);
    lemma_prefix(out, e5, "route_cache_ms"@, v);
    let e6 = with_line(e5, "route_cache_ms"@, v);
    let v = text::dec(1000);
    lemma_line(o6, "retry_after_ms"@, v);
    let o7 = with_line(o6, "retry_after_ms"@, v);
    lemma_prefix(out, e6, "retry_after_ms"@, v);
    let e7 = with_line(e6, "retry_after_ms"@, v);
    let v = text::dec(spec.cells.min_nodes as nat);
    lemma_line(o7, "cell_min_nodes"@, v);
    let o8 = with_line(o7, "cell_min_nodes"@, v);
    lemma_prefix(out, e7, "cell_min_nodes"@, v);
    let e8 = with_line(e7, "cell_min_nodes"@, v);
    let v = text::dec(spec.cells.target_nodes as nat);
    lemma_line(o8, "cell_target_nodes"@, v);
    let o9 = with_line(o8, "cell_target_nodes"@, v);
    lemma_prefix(out, e8, "cell_target_nodes"@, v);
    let e9 = with_line(e8, "cell_target_nodes"@, v);
    let v = text::dec(spec.cells.max_nodes as nat);
    lemma_line(o9, "cell_max_nodes"@, v);
    let o10 = with_line(o9, "cell_max_nodes"@, v);
    lemma_prefix(out, e9, "cell_max_nodes"@, v);
    let e10 = with_line(e9, "cell_max_nodes"@, v);
    let v = text::dec(spec.cells.routers_per_cell as nat);
    lemma_line(o10, "routers_per_cell"@, v);
    let o11 = with_line(o10, "routers_per_cell"@, v);
    lemma_prefix(out, e10, "routers_per_cell"@, v);
    let e11 = with_line(e10, "routers_per_cell"@, v);
    assert(o11 == federation_section(out, cell_id, root_voters, spec));
    assert(e11 == federation_section(Seq::empty(), cell_id, root_voters, spec));
}

/// Brokers find each other at the seeds, with the shared token.
#[verifier::rlimit(60)]
#[verifier::spinoff_prover]
pub proof fn law_services_are_configured(
    out: Seq<char>,
    seeds: Seq<Seq<char>>,
)
    ensures
        sets(
            service_sections(out, seeds),
            "enabled"@,
            "true"@,
        ),
        sets(
            service_sections(out, seeds),
            "listen_address"@,
            toml_string("/ip4/0.0.0.0/tcp/4350"@),
        ),
        sets(
            service_sections(out, seeds),
            "seed_addresses"@,
            "["@ + text_list(seeds) + "]"@,
        ),
        sets(
            service_sections(out, seeds),
            "mdns"@,
            "false"@,
        ),
        sets(
            service_sections(out, seeds),
            "join_token_file"@,
            toml_string("/etc/rustqueue/shared/discovery.token"@),
        ),
        sets(
            service_sections(out, seeds),
            "announce_interval_seconds"@,
            text::dec(5),
        ),
        sets(
            service_sections(out, seeds),
            "max_known_peers"@,
            text::dec(4096),
        ),
        sets(
            service_sections(out, seeds),
            "enabled"@,
            "true"@,
        ),
        sets(
            service_sections(out, seeds),
            "poll_interval_seconds"@,
            text::dec(15),
        ),
        sets(
            service_sections(out, seeds),
            "node_stabilization_seconds"@,
            text::dec(60),
        ),
        sets(
            service_sections(out, seeds),
            "node_down_grace_seconds"@,
            text::dec(600),
        ),
        sets(
            service_sections(out, seeds),
            "group_cooldown_seconds"@,
            text::dec(600),
        ),
        sets(
            service_sections(out, seeds),
            "max_concurrent_migrations"@,
            text::dec(2),
        ),
        sets(
            service_sections(out, seeds),
            "max_migrations_per_node"@,
            text::dec(1),
        ),
        sets(
            service_sections(out, seeds),
            "auto_replace_metadata"@,
            "true"@,
        ),
        sets(
            service_sections(out, seeds),
            "operation_history_limit"@,
            text::dec(1000),
        ),
        sets(
            service_sections(out, seeds),
            "grace_seconds"@,
            text::dec(60),
        ),
        sets(
            service_sections(out, seeds),
            "maintenance_default_ttl_seconds"@,
            text::dec(1800),
        ),
        sets(
            service_sections(out, seeds),
            "maintenance_max_ttl_seconds"@,
            text::dec(86_400),
        ),
        service_sections(out, seeds) == out + service_sections(Seq::empty(), seeds),
{
    reveal(service_sections);
    reveal_strlit("[cluster.automation]\n");
    reveal_strlit("[cluster.discovery]\n");
    reveal_strlit("[cluster.shutdown]\n");
    let o0 = out;
    let e0 = Seq::<char>::empty();
    assert(o0 =~= out + e0);
    assert("[cluster.discovery]\n"@.len() == 20 && "[cluster.discovery]\n"@.last() == '\n');
    lemma_heading(o0, "[cluster.discovery]\n"@);
    let o1 = o0 + "[cluster.discovery]\n"@;
    let e1 = e0 + "[cluster.discovery]\n"@;
    assert(o1 =~= out + e1);
    let v = "true"@;
    lemma_line(o1, "enabled"@, v);
    let o2 = with_line(o1, "enabled"@, v);
    lemma_prefix(out, e1, "enabled"@, v);
    let e2 = with_line(e1, "enabled"@, v);
    let v = toml_string("/ip4/0.0.0.0/tcp/4350"@);
    lemma_line(o2, "listen_address"@, v);
    let o3 = with_line(o2, "listen_address"@, v);
    lemma_prefix(out, e2, "listen_address"@, v);
    let e3 = with_line(e2, "listen_address"@, v);
    let v = "["@ + text_list(seeds) + "]"@;
    lemma_line(o3, "seed_addresses"@, v);
    let o4 = with_line(o3, "seed_addresses"@, v);
    lemma_prefix(out, e3, "seed_addresses"@, v);
    let e4 = with_line(e3, "seed_addresses"@, v);
    let v = "false"@;
    lemma_line(o4, "mdns"@, v);
    let o5 = with_line(o4, "mdns"@, v);
    lemma_prefix(out, e4, "mdns"@, v);
    let e5 = with_line(e4, "mdns"@, v);
    let v = toml_string("/etc/rustqueue/shared/discovery.token"@);
    lemma_line(o5, "join_token_file"@, v);
    let o6 = with_line(o5, "join_token_file"@, v);
    lemma_prefix(out, e5, "join_token_file"@, v);
    let e6 = with_line(e5, "join_token_file"@, v);
    let v = text::dec(5);
    lemma_line(o6, "announce_interval_seconds"@, v);
    let o7 = with_line(o6, "announce_interval_seconds"@, v);
    lemma_prefix(out, e6, "announce_interval_seconds"@, v);
    let e7 = with_line(e6, "announce_interval_seconds"@, v);
    let v = text::dec(4096);
    lemma_line(o7, "max_known_peers"@, v);
    let o8 = with_line(o7, "max_known_peers"@, v);
    lemma_prefix(out, e7, "max_known_peers"@, v);
    let e8 = with_line(e7, "max_known_peers"@, v);
    assert("[cluster.automation]\n"@.len() == 21 && "[cluster.automation]\n"@.last() == '\n');
    lemma_heading(o8, "[cluster.automation]\n"@);
    let o9 = o8 + "[cluster.automation]\n"@;
    let e9 = e8 + "[cluster.automation]\n"@;
    assert(o9 =~= out + e9);
    let v = "true"@;
    lemma_line(o9, "enabled"@, v);
    let o10 = with_line(o9, "enabled"@, v);
    lemma_prefix(out, e9, "enabled"@, v);
    let e10 = with_line(e9, "enabled"@, v);
    let v = text::dec(15);
    lemma_line(o10, "poll_interval_seconds"@, v);
    let o11 = with_line(o10, "poll_interval_seconds"@, v);
    lemma_prefix(out, e10, "poll_interval_seconds"@, v);
    let e11 = with_line(e10, "poll_interval_seconds"@, v);
    let v = text::dec(60);
    lemma_line(o11, "node_stabilization_seconds"@, v);
    let o12 = with_line(o11, "node_stabilization_seconds"@, v);
    lemma_prefix(out, e11, "node_stabilization_seconds"@, v);
    let e12 = with_line(e11, "node_stabilization_seconds"@, v);
    let v = text::dec(600);
    lemma_line(o12, "node_down_grace_seconds"@, v);
    let o13 = with_line(o12, "node_down_grace_seconds"@, v);
    lemma_prefix(out, e12, "node_down_grace_seconds"@, v);
    let e13 = with_line(e12, "node_down_grace_seconds"@, v);
    let v = text::dec(600);
    lemma_line(o13, "group_cooldown_seconds"@, v);
    let o14 = with_line(o13, "group_cooldown_seconds"@, v);
    lemma_prefix(out, e13, "group_cooldown_seconds"@, v);
    let e14 = with_line(e13, "group_cooldown_seconds"@, v);
    let v = text::dec(2);
    lemma_line(o14, "max_concurrent_migrations"@, v);
    let o15 = with_line(o14, "max_concurrent_migrations"@, v);
    lemma_prefix(out, e14, "max_concurrent_migrations"@, v);
    let e15 = with_line(e14, "max_concurrent_migrations"@, v);
    let v = text::dec(1);
    lemma_line(o15, "max_migrations_per_node"@, v);
    let o16 = with_line(o15, "max_migrations_per_node"@, v);
    lemma_prefix(out, e15, "max_migrations_per_node"@, v);
    let e16 = with_line(e15, "max_migrations_per_node"@, v);
    let v = "true"@;
    lemma_line(o16, "auto_replace_metadata"@, v);
    let o17 = with_line(o16, "auto_replace_metadata"@, v);
    lemma_prefix(out, e16, "auto_replace_metadata"@, v);
    let e17 = with_line(e16, "auto_replace_metadata"@, v);
    let v = text::dec(1000);
    lemma_line(o17, "operation_history_limit"@, v);
    let o18 = with_line(o17, "operation_history_limit"@, v);
    lemma_prefix(out, e17, "operation_history_limit"@, v);
    let e18 = with_line(e17, "operation_history_limit"@, v);
    assert("[cluster.shutdown]\n"@.len() == 19 && "[cluster.shutdown]\n"@.last() == '\n');
    lemma_heading(o18, "[cluster.shutdown]\n"@);
    let o19 = o18 + "[cluster.shutdown]\n"@;
    let e19 = e18 + "[cluster.shutdown]\n"@;
    assert(o19 =~= out + e19);
    let v = text::dec(60);
    lemma_line(o19, "grace_seconds"@, v);
    let o20 = with_line(o19, "grace_seconds"@, v);
    lemma_prefix(out, e19, "grace_seconds"@, v);
    let e20 = with_line(e19, "grace_seconds"@, v);
    let v = text::dec(1800);
    lemma_line(o20, "maintenance_default_ttl_seconds"@, v);
    let o21 = with_line(o20, "maintenance_default_ttl_seconds"@, v);
    lemma_prefix(out, e20, "maintenance_default_ttl_seconds"@, v);
    let e21 = with_line(e20, "maintenance_default_ttl_seconds"@, v);
    let v = text::dec(86_400);
    lemma_line(o21, "maintenance_max_ttl_seconds"@, v);
    let o22 = with_line(o21, "maintenance_max_ttl_seconds"@, v);
    lemma_prefix(out, e21, "maintenance_max_ttl_seconds"@, v);
    let e22 = with_line(e21, "maintenance_max_ttl_seconds"@, v);
    assert(o22 == service_sections(out, seeds));
    assert(e22 == service_sections(Seq::empty(), seeds));
}

/// Each broker that is seen is known by its own address, its cell and its failure domain, and
/// routes where its place is among the routers.
pub proof fn law_peers_are_configured(
    out: Seq<char>,
    node_id: u64,
    broker: BrokerView,
    namespace: Seq<char>,
    domains: Map<u64, String>,
    routers: nat,
)
    ensures
        ({
            let t = peer_section(out, node_id, broker, namespace, domains, routers);
            let address = fqdn(broker, namespace);
            let domain = if domains.contains_key(node_id) {
                domains[node_id]@
            } else {
                "pending"@
            };
            &&& text::starts(t, out + "[cluster.nodes."@ + text::dec(node_id as nat) + "]\n"@)
            &&& sets(t, "raft_address"@, toml_string("https://"@ + address + ":4250"@))
            &&& sets(t, "broadcast_address"@, toml_string(address))
            &&& sets(t, "tcp_port"@, text::dec(4150))
            &&& sets(t, "http_port"@, text::dec(4151))
            &&& sets(t, "tls_server_name"@, toml_string(address))
            &&& sets(t, "failure_domain"@, toml_string(domain))
            &&& sets(t, "cell_id"@, text::dec(broker.cell_id))
            &&& sets(t, "federation_router"@, if broker.ordinal < routers {
                "true"@
            } else {
                "false"@
            })
        }),
{
    reveal(peer_section);
    reveal_strlit("[cluster.nodes.");
    reveal_strlit("]\n");
    let address = fqdn(broker, namespace);
    let domain = if domains.contains_key(node_id) {
        domains[node_id]@
    } else {
        "pending"@
    };
    let o0 = out;
    let h = "[cluster.nodes."@ + text::dec(node_id as nat) + "]\n"@;
    assert(h.last() == '\n');
    assert(out + "[cluster.nodes."@ + text::dec(node_id as nat) + "]\n"@ =~= out + h);
    lemma_heading(o0, h);
    let o1 = o0 + h;
    let v = toml_string("https://"@ + address + ":4250"@);
    lemma_line(o1, "raft_address"@, v);
    let o2 = with_line(o1, "raft_address"@, v);
    let v = toml_string(address);
    lemma_line(o2, "broadcast_address"@, v);
    let o3 = with_line(o2, "broadcast_address"@, v);
    let v = text::dec(4150);
    lemma_line(o3, "tcp_port"@, v);
    let o4 = with_line(o3, "tcp_port"@, v);
    let v = text::dec(4151);
    lemma_line(o4, "http_port"@, v);
    let o5 = with_line(o4, "http_port"@, v);
    let v = toml_string(address);
    lemma_line(o5, "tls_server_name"@, v);
    let o6 = with_line(o5, "tls_server_name"@, v);
    let v = toml_string(domain);
    lemma_line(o6, "failure_domain"@, v);
    let o7 = with_line(o6, "failure_domain"@, v);
    let v = text::dec(broker.cell_id);
    lemma_line(o7, "cell_id"@, v);
    let o8 = with_line(o7, "cell_id"@, v);
    let v = if broker.ordinal < routers {
        "true"@
    } else {
        "false"@
    };
    lemma_line(o8, "federation_router"@, v);
    let o9 = with_line(o8, "federation_router"@, v);
    assert(o9 == peer_section(out, node_id, broker, namespace, domains, routers));
}

proof fn lemma_first_cell(cells: Seq<CellView>, id: nat, k: int)
    requires
        k >= 0,
    ensures
        first_cell(cells, id, k) matches Some(c) ==> k <= c < cells.len() && cells[c].id == id,
        first_cell(cells, id, k) is None ==> forall|c: int|
            k <= c < cells.len() ==> (#[trigger] cells[c]).id != id,
    decreases cells.len() - k,
{
    if k < cells.len() && cells[k].id != id {
        lemma_first_cell(cells, id, k + 1);
    }
}

/// The first voters of a cell are its first brokers, as many as the metadata has replicas.
pub proof fn law_voters_are_the_first_of_the_cell(cell: CellView, metadata: nat, i: int)
    ensures
        voters(cell, metadata).len() == if metadata <= cell.brokers.len() {
            metadata
        } else {
            cell.brokers.len()
        },
        0 <= i < voters(cell, metadata).len() ==> voters(cell, metadata)[i]
            == cell.brokers[i].node_id as u64,
{
}

/// Seeds are the first broker of the cell and the first of all, each once and in order.
pub proof fn law_seeds_are_two_at_most(a: Seq<char>, b: Seq<char>)
    ensures
        ordered_pair(a, b).contains(a) && ordered_pair(a, b).contains(b),
        a == b ==> ordered_pair(a, b).len() == 1,
        a != b ==> ordered_pair(a, b).len() == 2 && !text::text_lt(
            ordered_pair(a, b)[1],
            ordered_pair(a, b)[0],
        ),
        ordered_pair(a, b) == ordered_pair(b, a),
{
    let p = ordered_pair(a, b);
    text::lemma_text_lt_total(a, b);
    assert(p[0] == a || p[0] == b);
    if a != b {
        assert(p[1] == a || p[1] == b);
    }
}

/// A broker can be configured only where its cell is in the layout and has brokers enough for
/// the replicas, and where there are three root voters; each failing is told as what it is.
pub proof fn law_configurations_need_enough_brokers(input: ConfigInput<'_>)
    ensures
        ({
            let cells = input.layout@.cells;
            let r = config_text(input);
            let n = layout::all_brokers(cells).len();
            let m = input.spec.replication;
            &&& r == Err::<Seq<char>, ConfigError>(ConfigError::CellAbsent) <==> forall|c: int|
                0 <= c < cells.len() ==> (#[trigger] cells[c]).id != input.broker.cell_id
            &&& r is Ok ==> n >= 3 && exists|c: int|
                0 <= c < cells.len() && (#[trigger] cells[c]).id == input.broker.cell_id
                    && cells[c].brokers.len() >= m.metadata && cells[c].brokers.len()
                    >= m.partitions && cells[c].brokers.len() > 0
            &&& r matches Err(ConfigError::ReplicationUnsatisfied(_)) ==> exists|c: int|
                0 <= c < cells.len() && (#[trigger] cells[c]).id == input.broker.cell_id && (
                cells[c].brokers.len() < m.metadata || cells[c].brokers.len() < m.partitions)
            &&& r == Err::<Seq<char>, ConfigError>(ConfigError::RootVoters) ==> n < 3
        }),
{
    let cells = input.layout@.cells;
    lemma_first_cell(cells, input.broker.cell_id as nat, 0);
    let c = first_cell(cells, input.broker.cell_id as nat, 0);
    if c is Some {
        assert(cells[c->0].id == input.broker.cell_id);
    }
}

proof fn lemma_peers_follow(
    out: Seq<char>,
    ids: Seq<u64>,
    k: int,
    brokers: Seq<BrokerView>,
    namespace: Seq<char>,
    domains: Map<u64, String>,
    routers: nat,
)
    requires
        0 <= k,
    ensures
        peer_sections(out, ids, k, brokers, namespace, domains, routers) matches Some(t)
            ==> text::starts(t, out),
    decreases ids.len() - k,
{
    assert(out.take(out.len() as int) =~= out);
    if k < ids.len() && layout::first_broker(brokers, ids[k] as nat) is Some {
        let b = brokers[layout::first_broker(brokers, ids[k] as nat)->0];
        let next = peer_section(out, ids[k], b, namespace, domains, routers);
        law_peers_are_configured(out, ids[k], b, namespace, domains, routers);
        let h = "[cluster.nodes."@ + text::dec(ids[k] as nat) + "]\n"@;
        assert(out + "[cluster.nodes."@ + text::dec(ids[k] as nat) + "]\n"@ =~= out + h);
        assert(next.take(out.len() as int) =~= next.take((out + h).len() as int).take(
            out.len() as int,
        ));
        assert((out + h).take(out.len() as int) =~= out);
        lemma_peers_follow(next, ids, k + 1, brokers, namespace, domains, routers);
        let r = peer_sections(next, ids, k + 1, brokers, namespace, domains, routers);
        if r is Some {
            assert(r->0.take(out.len() as int) =~= r->0.take(next.len() as int).take(
                out.len() as int,
            ));
        }
    }
}

/// A configuration holds the sections one after the other, each for the broker that it is for:
/// its number and address, its cell, the voters of its cell, the first three brokers as root
/// voters, and as seeds the first broker of its cell and the first of all. A first broker founds
/// its cell.
pub proof fn law_configurations_are_made_of_their_sections(input: ConfigInput<'_>)
    requires
        config_text(input) is Ok,
    ensures
        exists|c: int|
            0 <= c < input.layout@.cells.len() && {
                let cell = #[trigger] input.layout@.cells[c];
                let all = layout::all_brokers(input.layout@.cells);
                let b = input.broker@;
                let none = Seq::<char>::empty();
                let spec = *input.spec;
                let roots = seq![
                    all[0].node_id as u64,
                    all[1].node_id as u64,
                    all[2].node_id as u64,
                ];
                &&& cell.id == b.cell_id
                &&& text::starts(
                    config_text(input)->Ok_0,
                    node_sections(
                        none,
                        b.node_id,
                        b.pod_name + "."@ + b.headless_service + "."@ + input.namespace@ + ".svc"@,
                    ) + storage_section(none, spec) + queue_sections(none, spec)
                        + security_sections(none) + cluster_section(
                        none,
                        input.cluster_name@,
                        b.ordinal == 0,
                        voters(cell, spec.replication.metadata as nat),
                        spec,
                    ) + federation_section(none, b.cell_id, roots, spec) + service_sections(
                        none,
                        ordered_pair(
                            peer_address(cell.brokers[0], input.namespace@),
                            peer_address(all[0], input.namespace@),
                        ),
                    ),
                )
            },
{
    let cells = input.layout@.cells;
    let spec = *input.spec;
    let ns = input.namespace@;
    let b = input.broker@;
    lemma_first_cell(cells, b.cell_id, 0);
    let c = first_cell(cells, b.cell_id, 0)->0;
    let cell = cells[c];
    let all = layout::all_brokers(cells);
    let roots = node_ids(all.take(3));
    assert(roots =~= seq![
        all[0].node_id as u64,
        all[1].node_id as u64,
        all[2].node_id as u64,
    ]);
    let visible = with_ids(with_ids(Seq::empty(), node_ids(cell.brokers)), roots);
    let seeds = ordered_pair(peer_address(cell.brokers[0], ns), peer_address(all[0], ns));
    let none = Seq::<char>::empty();
    reveal_strlit("");
    assert(""@ =~= none);
    let v = voters(cell, spec.replication.metadata as nat);
    let o0 = node_sections(none, b.node_id, fqdn(b, ns));
    law_storage_is_configured(o0, spec);
    let o1 = storage_section(o0, spec);
    law_queues_are_configured(o1, spec);
    let o2 = queue_sections(o1, spec);
    law_security_is_configured(o2);
    let o3 = security_sections(o2);
    law_clusters_are_configured(o3, input.cluster_name@, b.ordinal == 0, v, spec);
    let o4 = cluster_section(o3, input.cluster_name@, b.ordinal == 0, v, spec);
    law_federations_are_configured(o4, b.cell_id, roots, spec);
    let o5 = federation_section(o4, b.cell_id, roots, spec);
    law_services_are_configured(o5, seeds);
    let o6 = service_sections(o5, seeds);
    lemma_peers_follow(
        o6,
        visible,
        0,
        all,
        ns,
        input.failure_domains@,
        spec.cells.routers_per_cell as nat,
    );
    assert(input.layout@.cells[c].id == b.cell_id);
}

proof fn lemma_peer_listed(
    out: Seq<char>,
    ids: Seq<u64>,
    k: int,
    brokers: Seq<BrokerView>,
    namespace: Seq<char>,
    domains: Map<u64, String>,
    routers: nat,
    i: int,
)
    requires
        0 <= k <= i < ids.len(),
        peer_sections(out, ids, k, brokers, namespace, domains, routers) is Some,
    ensures
        layout::first_broker(brokers, ids[i] as nat) is Some,
        ({
            let b = brokers[layout::first_broker(brokers, ids[i] as nat)->0];
            exists|o: Seq<char>|
                text::starts(
                    peer_sections(out, ids, k, brokers, namespace, domains, routers)->0,
                    #[trigger] peer_section(o, ids[i], b, namespace, domains, routers),
                )
        }),
    decreases i - k,
{
    let b = brokers[layout::first_broker(brokers, ids[k] as nat)->0];
    let next = peer_section(out, ids[k], b, namespace, domains, routers);
    if k < i {
        lemma_peer_listed(next, ids, k + 1, brokers, namespace, domains, routers, i);
    } else {
        lemma_peers_follow(next, ids, k + 1, brokers, namespace, domains, routers);
    }
}

/// Every broker of the cell and every root voter is in the configuration, as a peer.
pub proof fn law_configurations_list_the_visible_brokers(input: ConfigInput<'_>, c: int, i: int)
    requires
        config_text(input) is Ok,
        first_cell(input.layout@.cells, input.broker.cell_id as nat, 0) == Some(c),
    ensures
        ({
            let cell = input.layout@.cells[c];
            let all = layout::all_brokers(input.layout@.cells);
            let t = config_text(input)->Ok_0;
            let routers = input.spec.cells.routers_per_cell as nat;
            forall|id: u64|
                (0 <= i < cell.brokers.len() && id == cell.brokers[i].node_id as u64) || (0 <= i < 3
                    && id == all[i].node_id as u64) ==> layout::first_broker(all, id as nat) is Some
                    && exists|o: Seq<char>|
                    text::starts(
                        t,
                        #[trigger] peer_section(
                            o,
                            id,
                            all[#[trigger] layout::first_broker(all, id as nat)->0],
                            input.namespace@,
                            input.failure_domains@,
                            routers,
                        ),
                    )
        }),
{
    let cells = input.layout@.cells;
    let spec = *input.spec;
    let ns = input.namespace@;
    let b = input.broker@;
    let cell = cells[c];
    let all = layout::all_brokers(cells);
    let own = node_ids(cell.brokers);
    let roots = node_ids(all.take(3));
    let visible = with_ids(with_ids(Seq::empty(), own), roots);
    let seeds = ordered_pair(peer_address(cell.brokers[0], ns), peer_address(all[0], ns));
    let o = node_sections(""@, b.node_id, fqdn(b, ns));
    let o = security_sections(queue_sections(storage_section(o, spec), spec));
    let v = voters(cell, spec.replication.metadata as nat);
    let o = cluster_section(o, input.cluster_name@, b.ordinal == 0, v, spec);
    let o = service_sections(federation_section(o, b.cell_id, roots, spec), seeds);
    let routers = spec.cells.routers_per_cell as nat;
    assert forall|id: u64|
        (0 <= i < cell.brokers.len() && id == cell.brokers[i].node_id as u64) || (0 <= i < 3 && id
            == all[i].node_id as u64) implies layout::first_broker(all, id as nat) is Some
        && exists|p: Seq<char>|
        text::starts(
            config_text(input)->Ok_0,
            #[trigger] peer_section(
                p,
                id,
                all[#[trigger] layout::first_broker(all, id as nat)->0],
                ns,
                input.failure_domains@,
                routers,
            ),
        ) by {
        if 0 <= i < cell.brokers.len() && id == cell.brokers[i].node_id as u64 {
            assert(own[i] == id);
        } else {
            assert(roots[i] == id);
        }
        law_visible_brokers_are_of_the_cell_or_the_root(own, roots, id);
        let w = visible.index_of(id);
        lemma_peer_listed(o, visible, 0, all, ns, input.failure_domains@, routers, w);
        assert(visible[w] == id);
    }
}

} // verus!
