use rustqueue::discovery::directory::{
    revision_of_digest, unique_producers, Directory, KODO_BROKER_COUNT,
};
use rustqueue::discovery::kube_source::{
    endpoints_from_slices, load_registry_token, refresh_succeeded, within_bound, EndpointSlice,
    SliceEndpoint, SlicePort,
};
use rustqueue::discovery::metrics::DiscoveryMetrics;
use rustqueue::discovery::model::{
    Address, BrokerEndpoint, BrokerRegistry, BrokerRegistryHead, Producer, RegistryTopic,
};
use rustqueue::discovery::server::{
    accepts_nsq_v1, check_arguments, delete_channel, prometheus, reply, ArgumentError, Query,
};
use rustqueue::ordered::SortedSet;

const SECOND: u128 = 1_000_000_000;

fn address(a: u8, b: u8, c: u8, d: u8) -> Address {
    Address {
        v6: false,
        bits: u32::from_be_bytes([a, b, c, d]) as u128,
        text: format!("{a}.{b}.{c}.{d}"),
    }
}

fn endpoint(index: usize) -> BrokerEndpoint {
    BrokerEndpoint {
        address: address(10, (index / 250) as u8, (index % 250) as u8, 1),
        http_port: 4151,
    }
}

fn set_of(endpoints: Vec<BrokerEndpoint>) -> SortedSet<BrokerEndpoint> {
    let mut set = SortedSet::new();
    for endpoint in endpoints {
        set.insert(endpoint);
    }
    set
}

fn registry(index: usize) -> BrokerRegistry {
    BrokerRegistry {
        format: 7,
        revision: 1,
        node_id: index as u64 + 1,
        ready: true,
        publish_ready: true,
        consume_ready: true,
        broadcast_address: format!("broker-{index}.rustqueue"),
        tcp_port: 4150,
        http_port: 4151,
        stored_messages: 1,
        depth: 1,
        in_flight: 0,
        topics: vec![RegistryTopic {
            name: "events".into(),
            paused: false,
            channels: vec!["workers".into()],
            stored_messages: 1,
        }],
        compatibility: None,
    }
}

fn gateways() -> Vec<Producer> {
    (0..KODO_BROKER_COUNT)
        .map(|ordinal| Producer::gateway("gateway".into(), ordinal))
        .collect()
}

#[test]
fn indexes_five_hundred_brokers_without_query_time_scans() {
    let mut directory = Directory::default();
    directory.replace_endpoints(set_of((0..500).map(endpoint).collect()));
    for index in 0..500 {
        directory.observe(endpoint(index), registry(index), 0);
    }
    assert_eq!(directory.producers(Some("events")).len(), 500);
    assert_eq!(directory.broker_count(), 500);
    assert_eq!(directory.topics(), vec!["events"]);
    assert_eq!(directory.channels("events"), vec!["workers"]);
}

#[test]
fn duplicate_registry_endpoints_do_not_inflate_broker_inventory() {
    let mut directory = Directory::default();
    directory.replace_endpoints(set_of(vec![endpoint(1), endpoint(2)]));
    directory.observe(endpoint(1), registry(0), 0);
    directory.observe(endpoint(2), registry(0), 0);

    assert_eq!(directory.producers(Some("events")).len(), 1);
    assert_eq!(directory.publishers().len(), 1);
    assert_eq!(directory.brokers().len(), 1);
    assert_eq!(directory.broker_count(), 1);
    assert_eq!(directory.publisher_count(), 1);
    assert_eq!(directory.publisher_head().1, 1);
    let twice = [registry(0), registry(0)];
    assert_eq!(unique_producers(&twice.iter().collect()).len(), 1);
}

#[test]
fn kodo_lookup_requires_one_unique_broker_per_stats_shard() {
    let mut directory = Directory::default();
    directory.configure_source_health(5 * SECOND);
    directory.configure_kodo(gateways(), false);
    for (index, node_id) in [1, 2, 4].into_iter().enumerate() {
        let mut registry = registry(index);
        registry.node_id = node_id;
        directory.observe(endpoint(index), registry, 0);
    }
    directory.mark_source_success(0);
    assert!(!directory.lookup_ready(0));

    let mut registry = registry(2);
    registry.node_id = 3;
    directory.observe(endpoint(2), registry, 0);
    assert!(directory.lookup_ready(0));
}

#[test]
fn unchanged_head_refreshes_liveness_without_reindexing() {
    let mut directory = Directory::default();
    let endpoint = endpoint(1);
    directory.replace_endpoints(set_of(vec![endpoint.duplicate()]));
    directory.observe(endpoint.duplicate(), registry(1), 0);
    let revision = directory.revision();
    let mut head = BrokerRegistryHead {
        format: 7,
        revision: 1,
        node_id: 2,
        ready: true,
        publish_ready: true,
        consume_ready: true,
    };
    assert!(!directory.observe_head(&endpoint, &head, 3 * SECOND));
    assert_eq!(directory.revision(), revision);
    directory.expire(2 * SECOND, 4 * SECOND);
    assert_eq!(directory.broker_count(), 1);
    head.revision = 2;
    assert!(directory.observe_head(&endpoint, &head, 3 * SECOND));
    directory.expire(2 * SECOND, 6 * SECOND);
    assert_eq!(directory.broker_count(), 0);
}

#[test]
fn routing_revision_is_content_based_across_discovery_replicas() {
    let mut first = Directory::default();
    let mut second = Directory::default();
    first.replace_endpoints(set_of(vec![endpoint(1)]));
    second.replace_endpoints(set_of(vec![endpoint(2)]));
    first.observe(endpoint(1), registry(1), 0);
    second.observe(endpoint(2), registry(2), 0);

    assert_ne!(first.revision(), second.revision());

    let mut replica = Directory::default();
    replica.replace_endpoints(set_of(vec![endpoint(1)]));
    replica.observe(endpoint(1), registry(1), 0);
    assert_eq!(first.revision(), replica.revision());
    assert_eq!(
        revision_of_digest(&[0, 0, 0, 0, 0, 0, 1, 2, 9, 9]),
        0x0102
    );
}

#[test]
fn staged_kodo_mode_never_falls_back_to_direct_broker_publishers() {
    let mut directory = Directory::default();
    directory.replace_endpoints(set_of(vec![endpoint(1)]));
    directory.observe(endpoint(1), registry(1), 0);
    assert_eq!(directory.node_producers().len(), 1);

    directory.configure_kodo(Vec::new(), false);

    assert!(directory.node_producers().is_empty());
    assert_eq!(directory.producers(Some("events")).len(), 1);
}

#[test]
fn nodes_exclude_a_broker_that_can_consume_but_cannot_publish() {
    let mut directory = Directory::default();
    let mut draining = registry(1);
    draining.publish_ready = false;
    directory.replace_endpoints(set_of(vec![endpoint(1)]));
    directory.observe(endpoint(1), draining, 0);

    assert!(directory.node_producers().is_empty());
    assert_eq!(directory.producers(Some("events")).len(), 1);
}

#[test]
fn cleanup_uses_the_network_isolated_broker_compatibility_port() {
    let mut directory = Directory::default();
    directory.replace_endpoints(set_of(vec![endpoint(1)]));
    directory.observe(endpoint(1), registry(1), 0);
    directory.configure_kodo(Vec::new(), true);

    let producer = directory.producers(Some("events")).remove(0);
    assert_eq!(producer.broadcast_address, "broker-1.rustqueue");
    assert_eq!(producer.tcp_port, 4150);
    assert_eq!(producer.http_port, 4152);
    assert!(directory.node_producers().is_empty());
}

#[test]
fn endpoints_that_go_away_take_their_brokers_with_them() {
    let mut directory = Directory::default();
    directory.replace_endpoints(set_of(vec![endpoint(1), endpoint(2)]));
    directory.observe(endpoint(1), registry(1), 0);
    directory.observe(endpoint(2), registry(2), 0);
    let urls: Vec<String> = directory
        .endpoints()
        .iter()
        .map(|endpoint| endpoint.registry_url())
        .collect();
    assert_eq!(
        urls,
        vec![
            "http://10.0.1.1:4151/v1/registry",
            "http://10.0.2.1:4151/v1/registry"
        ]
    );
    directory.replace_endpoints(set_of(vec![endpoint(2)]));
    assert_eq!(directory.broker_count(), 1);
    assert_eq!(
        directory.producers(Some("events"))[0].broadcast_address,
        "broker-2.rustqueue"
    );
    let (revision, publishers) = directory.publisher_snapshot();
    assert_eq!(revision, directory.revision());
    assert_eq!(publishers.len(), 1);
    assert_eq!(directory.broker_snapshot().1.len(), 1);
}

#[test]
fn endpoint_urls_bracket_ipv6() {
    let plain = endpoint(1);
    assert_eq!(plain.registry_url(), "http://10.0.1.1:4151/v1/registry");
    assert_eq!(
        plain.registry_head_url(),
        "http://10.0.1.1:4151/v1/registry/head"
    );
    let six = BrokerEndpoint {
        address: Address {
            v6: true,
            bits: 0xfd00_0000_0000_0000_0000_0000_0000_0001,
            text: "fd00::1".into(),
        },
        http_port: 80,
    };
    assert_eq!(six.registry_url(), "http://[fd00::1]:80/v1/registry");
}

#[test]
fn extracts_not_ready_brokers_for_drain_aware_registry_polling() {
    let point = |d: u8, terminating: Option<bool>| SliceEndpoint {
        addresses: vec![Some(address(10, 0, 0, d))],
        terminating,
    };
    let slice = EndpointSlice {
        endpoints: vec![point(1, None), point(2, None)],
        ports: vec![SlicePort {
            name: Some("http".into()),
            port: Some(4151),
        }],
    };
    let endpoints = endpoints_from_slices(&vec![slice], 9999);
    assert_eq!(endpoints.map.keys.len(), 2);
    assert_eq!(endpoints.map.keys[0].http_port, 4151);
    assert_eq!(
        endpoints.map.keys[1].registry_url(),
        "http://10.0.0.2:4151/v1/registry"
    );

    let without_port = EndpointSlice {
        endpoints: vec![
            point(1, Some(false)),
            point(2, Some(true)),
            SliceEndpoint {
                addresses: vec![None],
                terminating: None,
            },
        ],
        ports: Vec::new(),
    };
    let endpoints = endpoints_from_slices(&vec![without_port], 9999);
    assert_eq!(endpoints.map.keys.len(), 1);
    assert_eq!(endpoints.map.keys[0].http_port, 9999);
}

#[test]
fn registry_token_file_is_reloaded_and_empty_values_fail_closed() {
    assert_eq!(load_registry_token("first\n").as_deref(), Some("first"));
    assert_eq!(load_registry_token("second").as_deref(), Some("second"));
    assert!(load_registry_token(" \n").is_none());
}

#[test]
fn refreshes_succeed_with_an_answer_or_nobody_to_ask() {
    assert!(refresh_succeeded(true, 0));
    assert!(refresh_succeeded(false, 1));
    assert!(!refresh_succeeded(false, 0));
    assert!(within_bound(10, 5, 15));
    assert!(!within_bound(10, 6, 15));
    assert!(!within_bound(usize::MAX, 2, 15));
}

#[test]
fn lookup_shape_matches_nsqlookupd() {
    let mut directory = Directory::default();
    directory.configure_source_health(5 * SECOND);
    directory.mark_source_success(0);
    let answer = reply(&directory, &Query::Lookup("events"), 0);
    assert_eq!(answer.status, 200);
    assert!(answer.body["producers"].is_array());
    assert!(accepts_nsq_v1(Some("application/vnd.nsq; version=1.0")));
    assert!(!accepts_nsq_v1(Some("application/json")));
    assert!(!accepts_nsq_v1(None));
}

#[test]
fn nodes_use_stable_kodo_gateways_without_changing_lookup() {
    let mut directory = Directory::default();
    directory.configure_kodo(gateways(), false);
    directory.configure_source_health(5 * SECOND);
    directory.mark_source_success(0);
    let value = reply(&directory, &Query::Nodes, 0).body;
    let producers = value["producers"].as_array().unwrap();
    assert_eq!(producers.len(), 3);
    assert!(producers
        .iter()
        .all(|producer| producer["broadcast_address"] == "gateway"));
    assert_eq!(
        producers
            .iter()
            .map(|producer| producer["tcp_port"].as_u64().unwrap())
            .collect::<Vec<_>>(),
        vec![4150, 4152, 4153]
    );
    assert_eq!(
        producers
            .iter()
            .map(|producer| producer["http_port"].as_u64().unwrap())
            .collect::<Vec<_>>(),
        vec![4151, 4154, 4155]
    );
}

fn observed(directory: &mut Directory, node_id: u64) {
    let mut broker = registry(0);
    broker.revision = node_id;
    broker.node_id = node_id;
    broker.broadcast_address = format!("broker-{node_id}");
    directory.observe(
        BrokerEndpoint {
            address: address(127, 0, 0, node_id as u8),
            http_port: 4151,
        },
        broker,
        0,
    );
}

#[test]
fn kodo_lookup_serves_healthy_shards_while_inventory_is_incomplete() {
    let mut directory = Directory::default();
    directory.configure_source_health(5 * SECOND);
    directory.configure_kodo(gateways(), false);
    for node_id in 1..=2 {
        observed(&mut directory, node_id);
    }
    directory.mark_source_success(0);

    let lookup = reply(&directory, &Query::Lookup("events"), 0);
    assert_eq!(lookup.status, 200);
    assert_eq!(lookup.body["producers"].as_array().unwrap().len(), 2);
    assert!(!directory.lookup_ready(0));
    assert_eq!(reply(&directory, &Query::Nodes, 0).status, 200);

    observed(&mut directory, 3);
    let lookup = reply(&directory, &Query::Lookup("events"), 0);
    assert_eq!(lookup.status, 200);
    assert_eq!(lookup.body["producers"].as_array().unwrap().len(), 3);
    assert!(directory.lookup_ready(0));
}

#[test]
fn nodes_and_health_fail_closed_until_the_source_is_ready() {
    let mut directory = Directory::default();
    directory.configure_source_health(5 * SECOND);
    directory.configure_kodo(Vec::new(), false);
    for query in [
        Query::Nodes,
        Query::Lookup("events"),
        Query::Topics,
        Query::Channels("events"),
        Query::PublishersHead,
        Query::Publishers,
        Query::Brokers,
        Query::Health,
    ] {
        assert_eq!(reply(&directory, &query, 0).status, 503);
    }
    directory.mark_source_success(0);
    assert_eq!(reply(&directory, &Query::Health, 0).status, 200);
    assert!(directory.source_ready(5 * SECOND));
    assert!(!directory.source_ready(5 * SECOND + 1));
}

#[test]
fn cleanup_fails_closed_without_the_complete_broker_inventory() {
    let mut directory = Directory::default();
    directory.configure_kodo(
        (0..3)
            .map(|ordinal| Producer::gateway(format!("gateway-{ordinal}"), ordinal))
            .collect(),
        true,
    );
    assert_eq!(delete_channel(&directory, "events", "workers").0, 503);
    assert!(directory.kodo_cleanup_enabled());
    assert!(directory.kodo_nodes_ready());
}

#[test]
fn metrics_expose_source_and_lookup_readiness() {
    let mut directory = Directory::default();
    directory.configure_source_health(5 * SECOND);
    directory.mark_source_success(0);
    let body = prometheus(&directory, String::new(), 0);
    assert!(body.contains("rustqueue_discovery_source_ready 1\n"));
    assert!(body.contains("rustqueue_discovery_lookup_ready 1\n"));
    let mut metrics = DiscoveryMetrics::default();
    metrics.endpoint_slice_timeouts = 4;
    assert!(metrics
        .render("a\n", "b\n")
        .starts_with("a\nb\n# HELP rustqueue_discovery_endpoint_slice_timeouts_total"));
    assert!(metrics
        .render("", "")
        .ends_with("rustqueue_discovery_endpoint_slice_timeouts_total 4\n"));
}

#[test]
fn answers_describe_the_inventory() {
    let mut directory = Directory::default();
    directory.replace_endpoints(set_of(vec![endpoint(1)]));
    directory.observe(endpoint(1), registry(1), 0);
    directory.configure_source_health(5 * SECOND);
    directory.mark_source_success(0);
    assert_eq!(reply(&directory, &Query::Info, 0).body["version"], "0.8.3");
    assert_eq!(
        reply(&directory, &Query::Topics, 0).body["topics"][0],
        "events"
    );
    assert_eq!(
        reply(&directory, &Query::Channels("events"), 0).body["channels"][0],
        "workers"
    );
    let head = reply(&directory, &Query::PublishersHead, 0).body;
    assert_eq!(head["revision"], directory.revision());
    let brokers = reply(&directory, &Query::Brokers, 0).body;
    assert_eq!(brokers["producers"][0]["node_id"], 2);
}

#[test]
fn arguments_are_checked_in_order() {
    assert_eq!(check_arguments(1, false, &None, false), Ok(None));
    assert_eq!(
        check_arguments(0, false, &None, false),
        Err(ArgumentError::Timeout)
    );
    assert_eq!(
        check_arguments(1, true, &Some("gateway".into()), true),
        Err(ArgumentError::Cleanup)
    );
    assert_eq!(
        check_arguments(1, true, &None, false),
        Err(ArgumentError::NoGateway)
    );
    assert_eq!(
        check_arguments(1, false, &Some("gateway".into()), false),
        Err(ArgumentError::GatewayWithoutKodo)
    );
    assert_eq!(
        check_arguments(1, true, &Some("gateway".into()), false),
        Ok(Some("gateway".to_owned()))
    );
    assert!(!ArgumentError::Timeout.message().is_empty());
}

#[test]
fn disabled_cleanup_is_not_told_as_a_missing_channel() {
    let directory = Directory::default();
    let (status, body) = delete_channel(&directory, "events", "workers");
    assert_eq!(status, 404);
    assert!(!body.contains("CHANNEL_NOT_FOUND"));
}
