use bytes::Bytes;
use rustqueue::json::Doc;
use rustqueue::ordered::SortedMap;
use rustqueue::protocol::command::Command;
use rustqueue::protocol::identify::IdentifyRequest;
use rustqueue::protocol::{HEARTBEAT, MAGIC_V2, MAX_BATCH_BYTES, MAX_MESSAGE_BYTES, OK};
use rustqueue::proxy::backend::{first_of, Backend, BackendPool};
use rustqueue::proxy::discovery::{
    base_address, coherent_revision, coherent_sources, forget_stale, last_coherent_is_fresh,
    remember, route, seen_again, source_is_current, source_of, still_current, HeadResponse,
    NodesResponse, Source,
    FULL_REFRESH_INTERVAL, ROUTING_STALE_AFTER,
};
use rustqueue::proxy::gateway::{
    attempt, backend_identify_body, backend_identify_of, default_backend_identify, error_body,
    frame_body_size, handshake, handshake_reply, publish_reply, retriable_error, speaks_v2,
    verdict, Attempt, BrokerEvent, HandshakeError, Publish, PublishEvent, PublishFailure,
    PublishReply, PublishStep, Session, SessionAction, Verdict, BACKEND_CONNECT_TIMEOUT,
    BACKEND_IDENTIFY_TIMEOUT, BACKEND_TIMEOUT, BACKEND_WRITE_TIMEOUT, NEW_ATTEMPT_BUDGET,
    PUBLISH_DEADLINE,
};
use rustqueue::proxy::http::{
    forwards_header, health, listeners, ping, retry_safe_method, returns_header,
    state_for_stats_shard, stats_throttled, stats_timeout, Forward, ForwardAction, ForwardEvent,
    Listener, Stage,
};
use rustqueue::proxy::ingress::{
    no_budget, read_body, read_head, read_timed_out, ClientCommand, Head, ReadError,
};
use rustqueue::proxy::kodo::{
    complete_sharded_backend, force_json_stats, removal, removal_order, removal_outcome,
    sharded_backend, sharded_backends, stable_hash, stats_backends, trouble_reply, unix_seconds,
    RegistryHead, Trouble, MAX_BACKEND_ERROR_BYTES,
};
use rustqueue::proxy::limits::{
    combine_results, kodo_ordinal, read_token, unexpected_task_exit, validate_proxy_limits,
    KodoConfig, KodoConfigError, LimitError, ProxyLimits, TimerRange,
};
use rustqueue::proxy::metrics::{prometheus, ProxyMetrics};
use rustqueue::proxy::stats::{
    merge_topics, ChannelStats, StatsAggregate, StatsResponse, TopicStats,
    MAX_STATS_AGGREGATE_BYTES, STATS_WORKING_SET_BYTES,
};
use rustqueue::proxy::tcp::{
    command_working_set, connection_age_range, jittered_connection_age,
    maximum_gateway_working_set,
};
use rustqueue::proxy::validation::{
    forward_metadata, parse_forward_metadata, ForwardMetadata, ForwardMetadataError, UriParts,
};
use std::collections::BTreeSet;
use std::time::{Duration, Instant};

const SECOND: u128 = 1_000_000_000;
const MILLISECOND: u128 = 1_000_000;

fn broker(node_id: u64) -> Backend {
    Backend {
        broadcast_address: format!("broker-{node_id}"),
        tcp_port: 4150,
        http_port: 4151,
        node_id,
    }
}

fn pool_of(ids: &[u64]) -> BackendPool {
    let mut pool = BackendPool::new();
    pool.replace(ids.iter().map(|id| broker(*id)).collect(), 0);
    pool
}

// Forwarding.

#[test]
fn accepts_origin_form_and_rejects_absolute_form() {
    assert_eq!(
        parse_forward_metadata("/pub?topic=x", Some("3"), 4).unwrap(),
        ForwardMetadata {
            path_and_query: "/pub?topic=x".into(),
            declared_bytes: Some(3),
        }
    );
    assert_eq!(
        parse_forward_metadata("http://elsewhere/pub", None, 4),
        Err(ForwardMetadataError::Invalid)
    );
    assert_eq!(
        parse_forward_metadata("/pub", Some("5"), 4),
        Err(ForwardMetadataError::BodyTooLarge)
    );
}

#[test]
fn forward_metadata_rejects_what_is_no_uri_or_no_length() {
    assert_eq!(
        parse_forward_metadata("/pub with spaces", None, 4),
        Err(ForwardMetadataError::Invalid)
    );
    assert_eq!(
        parse_forward_metadata("", None, 4),
        Err(ForwardMetadataError::Invalid)
    );
    assert_eq!(
        parse_forward_metadata("elsewhere:80", None, 4),
        Err(ForwardMetadataError::Invalid)
    );
    assert_eq!(
        parse_forward_metadata("/pub", Some("-1"), 4),
        Err(ForwardMetadataError::Invalid)
    );
    assert_eq!(
        parse_forward_metadata("/pub", Some("many"), 4),
        Err(ForwardMetadataError::Invalid)
    );
    assert_eq!(
        parse_forward_metadata("/pub", Some("99999999999999999999999"), 4),
        Err(ForwardMetadataError::Invalid)
    );
    assert_eq!(
        parse_forward_metadata("/pub", None, 4)
            .unwrap()
            .declared_bytes,
        None
    );
    assert_eq!(
        parse_forward_metadata("/pub#fragment", Some("4"), 4)
            .unwrap()
            .path_and_query,
        "/pub"
    );
}

#[test]
fn forward_metadata_is_decided_on_the_parts_of_the_target() {
    let parts = |scheme, authority, path: Option<&str>| {
        Some(UriParts {
            has_scheme: scheme,
            has_authority: authority,
            path_and_query: path.map(|p| p.to_owned()),
        })
    };
    assert_eq!(
        forward_metadata(None, None, 1),
        Err(ForwardMetadataError::Invalid)
    );
    assert_eq!(
        forward_metadata(parts(true, false, Some("/x")), None, 1),
        Err(ForwardMetadataError::Invalid)
    );
    assert_eq!(
        forward_metadata(parts(false, true, Some("/x")), None, 1),
        Err(ForwardMetadataError::Invalid)
    );
    assert_eq!(
        forward_metadata(parts(false, false, None), Some("+1"), 1).unwrap(),
        ForwardMetadata {
            path_and_query: "/".into(),
            declared_bytes: Some(1),
        }
    );
}

#[test]
fn mutating_http_requests_never_fail_over_after_an_ambiguous_send() {
    assert!(!retry_safe_method("POST"));
    assert!(!retry_safe_method("PUT"));
    assert!(retry_safe_method("GET"));
    assert!(retry_safe_method("HEAD"));
    assert!(retry_safe_method("OPTIONS"));
    assert!(!retry_safe_method("get"));
}

fn begin(kodo: bool, method: &str, length: Option<&str>, max: usize) -> (Forward, ForwardAction) {
    Forward::begin(
        kodo,
        method,
        parse_forward_metadata("/pub?topic=x", length, max),
        max,
    )
}

fn reply_of(action: ForwardAction) -> (u16, &'static str, Option<u64>, bool) {
    match action {
        ForwardAction::Reply { reply, ambiguous } => {
            (reply.status, reply.body, reply.retry_after, ambiguous)
        }
        other => panic!("{other:?}"),
    }
}

#[test]
fn no_backend_is_retryable() {
    let (mut request, action) = begin(false, "GET", None, 1024);
    assert_eq!(action, ForwardAction::Reserve(1024));
    assert_eq!(
        request.next(ForwardEvent::Reserved(true)),
        Some(ForwardAction::ReadBody(1024))
    );
    assert_eq!(
        request.next(ForwardEvent::BodyRead),
        Some(ForwardAction::Choose(2))
    );
    let pool = BackendPool::new();
    let chosen = pool.shuffled(2).len();
    let (status, body, retry_after, ambiguous) =
        reply_of(request.next(ForwardEvent::Chosen(chosen)).unwrap());
    assert_eq!(status, 503);
    assert_eq!(body, "E_NO_BROKER no publish-ready broker");
    assert_eq!(retry_after, Some(1));
    assert!(!ambiguous);
}

#[test]
fn kodo_gateway_does_not_expose_the_http_publish_proxy() {
    let (request, action) = begin(true, "POST", None, 1024);
    let (status, body, _, _) = reply_of(action);
    assert_eq!(status, 404);
    assert_eq!(
        body,
        "E_NOT_FOUND Kodo Gateway HTTP forwarding is disabled"
    );
    assert_eq!(request.stage, Stage::Answered);
}

#[test]
fn kodo_stats_respects_the_node_byte_budget() {
    assert_eq!(STATS_WORKING_SET_BYTES, 3 * MAX_STATS_AGGREGATE_BYTES);
    assert!(u32::try_from(STATS_WORKING_SET_BYTES).is_ok());
    let reply = stats_throttled();
    assert_eq!(reply.status, 429);
    assert_eq!(reply.retry_after, Some(1));
    assert_eq!(
        reply.body,
        "E_THROTTLED proxy stats byte budget is exhausted"
    );
    assert_eq!(stats_timeout().status, 504);
    assert_eq!(
        stats_timeout().body,
        "E_STATS_TIMEOUT proxy stats collection timed out"
    );
}

#[test]
fn rejects_a_request_that_exceeds_the_node_inflight_budget() {
    let (mut request, action) = begin(false, "POST", Some("2"), 1024);
    assert_eq!(action, ForwardAction::Reserve(2));
    let (status, body, retry_after, _) =
        reply_of(request.next(ForwardEvent::Reserved(false)).unwrap());
    assert_eq!(status, 429);
    assert_eq!(
        body,
        "E_THROTTLED proxy publish byte budget is exhausted"
    );
    assert_eq!(retry_after, Some(1));
}

#[test]
fn non_kodo_channel_delete_is_forwarded_to_the_backend() {
    let (mut request, _) = Forward::begin(
        false,
        "POST",
        parse_forward_metadata("/channel/delete?topic=events&channel=workers", None, 1024),
        1024,
    );
    assert_eq!(
        request.path_and_query,
        "/channel/delete?topic=events&channel=workers"
    );
    request.next(ForwardEvent::Reserved(true));
    assert_eq!(
        request.next(ForwardEvent::BodyRead),
        Some(ForwardAction::Choose(1))
    );
    assert_eq!(
        request.next(ForwardEvent::Chosen(1)),
        Some(ForwardAction::Send(0))
    );
    assert_eq!(
        request.next(ForwardEvent::Answer),
        Some(ForwardAction::ReadAnswer)
    );
    assert_eq!(
        request.next(ForwardEvent::AnswerRead(true)),
        Some(ForwardAction::Relay)
    );
    assert_eq!(request.next(ForwardEvent::Answer), None);
}

#[test]
fn requests_are_refused_before_memory_is_asked_for() {
    let (_, action) = begin(false, "POST", Some("1025"), 1024);
    assert_eq!(reply_of(action).0, 413);
    let (_, action) = begin(false, "POST", Some("x"), 1024);
    assert_eq!(
        reply_of(action),
        (400, "E_BAD_REQUEST invalid proxy request", None, false)
    );
    let (_, action) = begin(false, "POST", Some("0"), 1024);
    assert_eq!(action, ForwardAction::Reserve(1));
    let (_, action) = begin(false, "POST", None, usize::MAX);
    assert_eq!(reply_of(action).0, 429);
}

#[test]
fn bodies_that_do_not_arrive_are_answered() {
    let (mut request, _) = begin(false, "POST", None, 16);
    request.next(ForwardEvent::Reserved(true));
    assert_eq!(
        reply_of(request.next(ForwardEvent::BodyFailed).unwrap()),
        (413, "E_BAD_BODY body exceeds proxy limit", None, false)
    );
    let (mut request, _) = begin(false, "POST", None, 16);
    request.next(ForwardEvent::Reserved(true));
    assert_eq!(
        reply_of(request.next(ForwardEvent::BodyTimedOut).unwrap()),
        (
            408,
            "E_BODY_TIMEOUT proxy request body read timed out",
            None,
            false
        )
    );
}

#[test]
fn reading_requests_fail_over_and_changing_ones_are_ambiguous() {
    let (mut read, _) = begin(false, "GET", None, 16);
    read.next(ForwardEvent::Reserved(true));
    read.next(ForwardEvent::BodyRead);
    assert_eq!(
        read.next(ForwardEvent::Chosen(2)),
        Some(ForwardAction::Send(0))
    );
    assert_eq!(
        read.next(ForwardEvent::SendFailed),
        Some(ForwardAction::Send(1))
    );
    assert_eq!(
        reply_of(read.next(ForwardEvent::SendFailed).unwrap()).0,
        503
    );

    let (mut change, _) = begin(false, "POST", None, 16);
    change.next(ForwardEvent::Reserved(true));
    change.next(ForwardEvent::BodyRead);
    change.next(ForwardEvent::Chosen(1));
    assert_eq!(
        reply_of(change.next(ForwardEvent::SendFailed).unwrap()),
        (
            502,
            "E_AMBIGUOUS backend may have committed the request; automatic retry is unsafe",
            None,
            true
        )
    );

    let (mut change, _) = begin(false, "POST", None, 16);
    change.next(ForwardEvent::Reserved(true));
    change.next(ForwardEvent::BodyRead);
    change.next(ForwardEvent::Chosen(1));
    change.next(ForwardEvent::Answer);
    let (status, _, _, ambiguous) =
        reply_of(change.next(ForwardEvent::AnswerRead(false)).unwrap());
    assert_eq!((status, ambiguous), (502, true));
}

#[test]
fn headers_of_the_hop_are_not_passed_on() {
    assert!(!forwards_header("host"));
    assert!(!forwards_header("content-length"));
    assert!(forwards_header("authorization"));
    assert!(!returns_header("transfer-encoding"));
    assert!(!returns_header("content-length"));
    assert!(returns_header("host"));
}

#[test]
fn ping_does_not_depend_on_backend_health() {
    assert_eq!(ping(), "OK");
}

#[test]
fn health_follows_the_number_of_brokers() {
    let (status, body) = health(0);
    assert_eq!(status, 503);
    assert_eq!(body["status"], "not_ready");
    assert_eq!(body["brokers"], 0);
    let (status, body) = health(3);
    assert_eq!(status, 200);
    assert_eq!(body["status"], "ready");
    assert_eq!(body["brokers"], 3);
}

#[test]
fn metrics_expose_backend_inventory() {
    let metrics = ProxyMetrics::default();
    let pool = BackendPool::new();
    let body = prometheus(&metrics.render("", ""), pool.len(), pool.len(), false);
    assert!(body.contains("rustqueue_proxy_publish_backends 0\n"));
    assert!(body.contains("rustqueue_proxy_broker_backends 0\n"));
    assert!(body.contains("rustqueue_proxy_kodo_gateway 0\n"));
}

#[test]
fn metrics_count_rotations() {
    let mut metrics = ProxyMetrics::default();
    metrics.tcp_connection_rotations = 12;
    let text = metrics.render("backend\n", "poll\n");
    assert_eq!(
        text,
        "backend\npoll\n# HELP rustqueue_proxy_tcp_connection_rotations_total TCP tunnels closed after reaching the configured maximum age.\n# TYPE rustqueue_proxy_tcp_connection_rotations_total counter\nrustqueue_proxy_tcp_connection_rotations_total 12\n"
    );
    assert!(prometheus("", 2, 3, true).ends_with(
        "rustqueue_proxy_publish_backends 2\nrustqueue_proxy_broker_backends 3\nrustqueue_proxy_kodo_gateway 1\n"
    ));
}

fn kodo_config(ordinal: usize) -> KodoConfig {
    KodoConfig {
        ordinal,
        cleanup_enabled: false,
        cleanup_token: None,
        registry_token: None,
    }
}

#[test]
fn kodo_stats_ports_override_the_pod_ordinal() {
    let state = kodo_config(2);
    assert_eq!(state_for_stats_shard(&state, 0).ordinal, 0);
    assert_eq!(state_for_stats_shard(&state, 1).ordinal, 1);
}

#[test]
fn gateways_serve_fixed_ports() {
    assert!(listeners(true, 8080).is_none());
    assert_eq!(
        listeners(true, 4151).unwrap(),
        vec![
            (4151, Listener::Full(Some(0))),
            (4154, Listener::Full(Some(1))),
            (4155, Listener::Full(Some(2))),
            (4160, Listener::Metrics),
        ]
    );
    assert_eq!(
        listeners(false, 8080).unwrap(),
        vec![(8080, Listener::Full(None))]
    );
}

// Brokers.

#[test]
fn pool_deduplicates_five_hundred_discovered_brokers() {
    let mut pool = BackendPool::new();
    let mut backends = Vec::new();
    for node_id in 1..=500 {
        backends.push(broker(node_id));
    }
    backends.push(backends[0].clone());
    pool.replace(backends, 0);
    assert_eq!(pool.len(), 500);
    assert_eq!(pool.shuffled(64).len(), 64);
}

#[test]
fn tcp_leases_spread_before_reusing_a_broker() {
    let mut pool = pool_of(&[1, 2, 3, 4, 5, 6, 7, 8]);
    let leases: Vec<Backend> = (0..8).map(|_| pool.lease().unwrap()).collect();
    let nodes: BTreeSet<u64> = leases.iter().map(|lease| lease.node_id).collect();
    assert_eq!(nodes.len(), 8);
    assert_eq!(pool.lease().unwrap().node_id, 1);
}

#[test]
fn sequential_reconnections_rotate_equal_backends() {
    let mut pool = pool_of(&[1, 2, 3]);
    let first = pool.lease().unwrap().node_id;
    pool.release(first);
    let second = pool.lease().unwrap().node_id;
    pool.release(second);
    assert_ne!(first, second);
}

#[test]
fn shuffled_brokers_are_the_brokers_of_the_pool() {
    let pool = pool_of(&[1, 2, 3, 4, 5]);
    let mut orders = BTreeSet::new();
    for _ in 0..200 {
        let ids: Vec<u64> = pool.shuffled(5).iter().map(|b| b.node_id).collect();
        let mut sorted = ids.clone();
        sorted.sort();
        assert_eq!(sorted, vec![1, 2, 3, 4, 5]);
        orders.insert(ids);
    }
    assert!(orders.len() > 1);
    assert_eq!(pool.shuffled(9).len(), 5);
    assert_eq!(pool.shuffled(0).len(), 0);
    assert_eq!(
        first_of(pool.all(), 2)
            .iter()
            .map(|b| b.node_id)
            .collect::<Vec<_>>(),
        vec![1, 2]
    );
}

#[test]
fn counts_of_gone_brokers_stay_while_they_have_connections() {
    let mut pool = pool_of(&[1, 2]);
    assert_eq!(pool.lease().unwrap().node_id, 1);
    assert_eq!(pool.lease().unwrap().node_id, 2);
    pool.replace(vec![broker(2)], 1);
    assert_eq!(pool.active_connections.get(&1), Some(&1));
    pool.release(1);
    assert_eq!(pool.active_connections.get(&1), None);
    pool.release(2);
    assert_eq!(pool.active_connections.get(&2), Some(&0));
    pool.release(2);
    assert_eq!(pool.active_connections.get(&2), Some(&0));
    pool.release(7);
    pool.replace(Vec::new(), 2);
    assert_eq!(pool.active_connections.get(&2), None);
    assert!(pool.lease().is_none());
    assert!(pool.is_empty());
}

#[test]
fn the_last_broker_of_a_number_counts() {
    let mut pool = BackendPool::new();
    let mut moved = broker(7);
    moved.broadcast_address = "elsewhere".into();
    pool.replace(vec![broker(9), broker(7), moved.clone()], 5);
    assert_eq!(pool.all(), vec![moved.clone(), broker(9)]);
    assert!(pool.holds(&moved));
    assert!(!pool.holds(&broker(7)));
    assert_eq!(pool.updated_at, Some(5));
}

#[test]
fn stale_brokers_are_forgotten() {
    let mut pool = pool_of(&[1]);
    pool.clear_if_stale(10, 10);
    assert_eq!(pool.len(), 1);
    pool.clear_if_stale(10, 11);
    assert_eq!(pool.len(), 0);
    let mut never = BackendPool::new();
    never.clear_if_stale(10, 0);
    assert_eq!(never.len(), 0);
}

#[test]
fn broker_addresses_bracket_ipv6_for_http() {
    let mut b = broker(1);
    assert_eq!(b.tcp_address(), "broker-1:4150");
    assert_eq!(b.http_origin(), "http://broker-1:4151");
    b.broadcast_address = "fd00::1".into();
    assert_eq!(b.http_origin(), "http://[fd00::1]:4151");
    b.broadcast_address = "[fd00::1]".into();
    assert_eq!(b.http_origin(), "http://[fd00::1]:4151");
}

// Discovery.

fn source(now: u128) -> Source {
    Source {
        revision: 7,
        producers: Vec::new(),
        brokers: Vec::new(),
        seen_at: now,
        full_at: now,
    }
}

#[test]
fn matching_revision_is_periodically_refreshed_in_full() {
    let now = 100 * SECOND;
    let source = source(now);

    assert!(source_is_current(
        &source,
        7,
        now + FULL_REFRESH_INTERVAL - MILLISECOND
    ));
    assert!(!source_is_current(&source, 7, now + FULL_REFRESH_INTERVAL));
    assert!(!source_is_current(&source, 8, now));
}

#[test]
fn mixed_discovery_revisions_are_rejected() {
    let publishers = NodesResponse {
        revision: 7,
        producers: Vec::new(),
    };
    let brokers = NodesResponse {
        revision: 8,
        producers: Vec::new(),
    };
    assert_eq!(
        coherent_revision(
            Some(&HeadResponse { revision: 7 }),
            &publishers,
            Some(&brokers)
        ),
        None
    );
    assert_eq!(
        coherent_revision(Some(&HeadResponse { revision: 7 }), &publishers, None),
        Some(7)
    );
    assert_eq!(
        coherent_revision(Some(&HeadResponse { revision: 8 }), &publishers, None),
        None
    );
    assert_eq!(coherent_revision(None, &publishers, None), Some(7));
}

#[test]
fn active_discovery_replicas_must_agree_before_routing() {
    let now = 100 * SECOND;
    let mut sources: SortedMap<String, Source> = SortedMap::new();
    sources.insert("first".into(), source(now));
    sources.insert("second".into(), source(now));
    assert!(coherent_sources(&sources).is_some());

    let mut second = source(now);
    second.revision = 8;
    sources.insert("second".into(), second);
    assert!(coherent_sources(&sources).is_none());

    sources.remove(&"second".to_owned());
    assert!(coherent_sources(&sources).is_some());
}

#[test]
fn last_coherent_routing_only_bridges_bounded_revision_skew() {
    let now = 100 * SECOND;
    assert!(last_coherent_is_fresh(Some(now), now + ROUTING_STALE_AFTER));
    assert!(!last_coherent_is_fresh(
        Some(now),
        now + ROUTING_STALE_AFTER + MILLISECOND
    ));
    assert!(!last_coherent_is_fresh(None, now));
}

#[test]
fn routing_follows_the_sources() {
    let now = 100 * SECOND;
    let nodes = |ids: &[u64]| NodesResponse {
        revision: 7,
        producers: ids.iter().map(|id| broker(*id)).collect(),
    };
    let mut sources: SortedMap<String, Source> = SortedMap::new();
    sources.insert(
        "b".into(),
        source_of(7, nodes(&[2]), Some(nodes(&[2, 3])), now),
    );
    sources.insert("a".into(), source_of(7, nodes(&[1]), None, now - SECOND));
    let mut publish = BackendPool::new();
    let mut brokers = BackendPool::new();
    let mut last = None;
    route(&mut publish, &mut brokers, &mut last, &sources, now);
    assert_eq!(publish.all(), vec![broker(1), broker(2)]);
    assert_eq!(brokers.all(), vec![broker(1), broker(2), broker(3)]);
    assert_eq!(last, Some(now - SECOND));

    let mut skewed = source_of(8, nodes(&[9]), None, now);
    skewed.revision = 8;
    sources.insert("b".into(), skewed);
    route(&mut publish, &mut brokers, &mut last, &sources, now + SECOND);
    assert_eq!(publish.len(), 2);
    assert_eq!(last, Some(now - SECOND));
    route(&mut publish, &mut brokers, &mut last, &sources, now + 5 * SECOND);
    assert_eq!(publish.len(), 0);
    assert_eq!(brokers.len(), 0);
}

#[test]
fn stale_sources_are_forgotten_and_seen_ones_stay() {
    let now = 100 * SECOND;
    let mut sources: SortedMap<String, Source> = SortedMap::new();
    sources.insert("old".into(), source(now - ROUTING_STALE_AFTER - 1));
    sources.insert("edge".into(), source(now - ROUTING_STALE_AFTER));
    let seen = seen_again(source(now - 10 * SECOND), now);
    assert_eq!(seen.full_at, now - 10 * SECOND);
    sources.insert("seen".into(), seen);
    forget_stale(&mut sources, now);
    assert_eq!(sources.keys, vec!["edge".to_owned(), "seen".to_owned()]);
    assert_eq!(base_address("http://x:1//"), "http://x:1");
    assert_eq!(base_address("//"), "");
    assert_eq!(base_address("http://x/y"), "http://x/y");
}

#[test]
fn replicas_are_read_again_when_their_head_or_their_age_says_so() {
    let now = 100 * SECOND;
    let nodes = |revision: u64, ids: &[u64]| NodesResponse {
        revision,
        producers: ids.iter().map(|id| broker(*id)).collect(),
    };
    let head = |revision: u64| HeadResponse { revision };
    let key = "http://one".to_owned();
    let mut sources: SortedMap<String, Source> = SortedMap::new();
    assert!(!still_current(&mut sources, &key, Some(&head(7)), now));
    assert!(!remember(
        &mut sources,
        key.clone(),
        Some(&head(8)),
        nodes(7, &[1]),
        None,
        now
    ));
    assert!(!remember(
        &mut sources,
        key.clone(),
        None,
        nodes(7, &[1]),
        Some(nodes(8, &[1])),
        now
    ));
    assert!(sources.is_empty());
    assert!(remember(
        &mut sources,
        key.clone(),
        Some(&head(7)),
        nodes(7, &[1]),
        Some(nodes(7, &[1, 2])),
        now
    ));
    let source = sources.get(&key).unwrap();
    assert_eq!(source.producers, vec![broker(1)]);
    assert_eq!(source.brokers, vec![broker(1), broker(2)]);
    assert!(still_current(
        &mut sources,
        &key,
        Some(&head(7)),
        now + SECOND
    ));
    let source = sources.get(&key).unwrap();
    assert_eq!((source.seen_at, source.full_at), (now + SECOND, now));
    assert!(!still_current(&mut sources, &key, None, now + SECOND));
    assert!(!still_current(
        &mut sources,
        &key,
        Some(&head(9)),
        now + SECOND
    ));
    assert!(!still_current(
        &mut sources,
        &key,
        Some(&head(7)),
        now + FULL_REFRESH_INTERVAL
    ));
    assert_eq!(sources.get(&key).unwrap().seen_at, now + SECOND);
}

// Kodo.

#[test]
fn callers_are_told_what_went_wrong() {
    let told = |trouble| {
        let reply = trouble_reply(trouble);
        (reply.status, reply.body)
    };
    assert_eq!(
        told(Trouble::NoChannel),
        (400, "E_BAD_REQUEST topic and channel are required".into())
    );
    assert_eq!(
        told(Trouble::StatsUnavailable),
        (503, "broker stats are unavailable".into())
    );
    assert_eq!(
        told(Trouble::StatsInvalid),
        (503, "broker stats are invalid".into())
    );
    assert_eq!(
        told(Trouble::StatsTooLarge),
        (503, "broker stats aggregate is too large".into())
    );
    assert_eq!(
        told(Trouble::RegistryUnavailable),
        (503, "broker registry is unavailable".into())
    );
    assert_eq!(
        told(Trouble::RegistryInvalid),
        (503, "broker registry is invalid".into())
    );
    assert_eq!(
        told(Trouble::CleanupUnavailable),
        (503, "broker cleanup is unavailable".into())
    );
}

#[test]
fn stats_merge_keeps_standard_names_and_counters() {
    let topics = merge_topics(
        Vec::new(),
        vec![TopicStats {
            name: "events".into(),
            message_count: 3,
            channels: vec![ChannelStats {
                name: "workers".into(),
                message_count: 3,
                client_count: 1,
                ..Default::default()
            }],
            ..Default::default()
        }],
    );
    assert_eq!(topics[0].topic_name, "events");
    assert_eq!(topics[0].channels[0].channel_name, "workers");
    assert_eq!(topics[0].channels[0].client_count, 1);
}

fn stats(topic: &str, channel: &str, count: u64, start_time: i64) -> StatsResponse {
    StatsResponse {
        version: String::new(),
        health: String::new(),
        start_time,
        topics: vec![TopicStats {
            topic_name: topic.into(),
            depth: count,
            memory_depth: 1,
            backend_depth: 2,
            message_count: count,
            paused: count > 5,
            channels: vec![ChannelStats {
                name: channel.into(),
                depth: count,
                message_count: u64::MAX - 1,
                in_flight_count: 4,
                deferred_count: 5,
                requeue_count: 6,
                timeout_count: 7,
                client_count: 1,
                clients: vec![Doc::new().text("client_id", channel).done()],
                ..Default::default()
            }],
            ..Default::default()
        }],
    }
}

#[test]
fn statistics_of_brokers_are_added_up() {
    let all = StatsAggregate::new()
        .with(stats("b", "y", 3, 50), 100)
        .unwrap()
        .with(stats("a", "x", 1, 0), 100)
        .unwrap()
        .with(stats("b", "y", 8, 40), 100)
        .unwrap()
        .with(stats("b", "w", 1, 60), 100)
        .unwrap();
    assert_eq!(all.bytes, 400);
    let done = all.done(7);
    assert_eq!(done.version, "0.8.3");
    assert_eq!(done.health, "OK");
    assert_eq!(done.start_time, 40);
    let names: Vec<&str> = done.topics.iter().map(|t| t.topic_name.as_str()).collect();
    assert_eq!(names, vec!["a", "b"]);
    let b = &done.topics[1];
    assert_eq!((b.depth, b.memory_depth, b.backend_depth), (12, 3, 6));
    assert_eq!(b.message_count, 12);
    assert!(b.paused);
    let channels: Vec<&str> = b.channels.iter().map(|c| c.channel_name.as_str()).collect();
    assert_eq!(channels, vec!["w", "y"]);
    let y = &b.channels[1];
    assert_eq!(y.depth, 11);
    assert_eq!(y.message_count, u64::MAX);
    assert_eq!((y.in_flight_count, y.deferred_count), (8, 10));
    assert_eq!((y.requeue_count, y.timeout_count), (12, 14));
    assert_eq!(y.client_count, 2);
    assert_eq!(y.clients.len(), 2);
    assert_eq!(y.clients[1]["client_id"], "y");
}

#[test]
fn statistics_are_bounded_and_begin_now_without_a_start() {
    let full = StatsAggregate::new()
        .with(stats("a", "x", 1, 0), MAX_STATS_AGGREGATE_BYTES)
        .unwrap();
    assert!(full.with(stats("a", "x", 1, 0), 1).is_none());
    assert_eq!(StatsAggregate::new().done(99).start_time, 99);
    assert_eq!(unix_seconds(5), 5);
    assert_eq!(unix_seconds(u64::MAX), i64::MAX);
}

#[test]
fn operation_hash_separates_topic_channel_pairs() {
    assert_ne!(stable_hash("a:b", "c"), stable_hash("a", "b:c"));
    assert_ne!(stable_hash("ab", ""), stable_hash("a", "b"));
    assert_eq!(stable_hash("", ""), 0xaf63bd4c8601b7df);
}

#[test]
fn stats_requests_always_use_json_without_dropping_filters() {
    assert_eq!(
        force_json_stats("/stats?format=text&topic=events"),
        "/stats?topic=events&format=json"
    );
    assert_eq!(force_json_stats("/stats"), "/stats?format=json");
    assert_eq!(
        force_json_stats("/stats?&format&a=format&&formats=1"),
        "/stats?a=format&formats=1&format=json"
    );
}

#[test]
fn gateway_ordinal_shards_every_broker_during_scale_transitions() {
    let mut pool = pool_of(&[1, 2, 3]);
    assert_eq!(sharded_backend(&pool, 1).unwrap().node_id, 2);
    let kept: Vec<Backend> = pool.all().into_iter().take(2).collect();
    pool.replace(kept, 0);
    assert_eq!(sharded_backend(&pool, 1).unwrap().node_id, 2);
    assert!(complete_sharded_backend(&pool, 1).is_none());

    pool = pool_of(&[1, 4, 7]);
    assert_eq!(
        sharded_backends(&pool, 0, 3)
            .unwrap()
            .into_iter()
            .map(|backend| backend.node_id)
            .collect::<Vec<_>>(),
        vec![1, 4, 7]
    );
    assert!(sharded_backends(&pool, 0, 2).is_none());
    assert!(sharded_backend(&pool, 0).is_none());
    assert_eq!(sharded_backends(&pool, 3, 0).unwrap().len(), 0);
}

#[test]
fn statistics_need_a_broker_and_not_too_many() {
    let error = stats_backends(&kodo_config(1), &pool_of(&[1])).unwrap_err();
    assert_eq!(
        (error.status, error.body.as_str()),
        (503, "gateway stats shard has no broker")
    );
    let many: Vec<u64> = (0..17).map(|i| 1 + 3 * i).collect();
    let error = stats_backends(&kodo_config(0), &pool_of(&many)).unwrap_err();
    assert_eq!(error.body, "gateway stats shard has too many brokers");
    assert_eq!(
        stats_backends(&kodo_config(0), &pool_of(&many[..16]))
            .unwrap()
            .len(),
        16
    );
}

#[test]
fn cleanup_uses_distinct_registry_and_cleanup_tokens() {
    let config = KodoConfig {
        ordinal: 0,
        cleanup_enabled: true,
        cleanup_token: Some("cleanup-secret".into()),
        registry_token: Some("registry-secret".into()),
    };
    let pool = pool_of(&[1, 2, 3]);
    let planned = removal(&config, &pool, "events", "workers").unwrap();
    assert_eq!(planned.backend, broker(1));
    assert_eq!(planned.cleanup_token, "cleanup-secret");
    assert_eq!(planned.registry_token, "registry-secret");
    let head = RegistryHead {
        revision: 7,
        node_id: 1,
    };
    let order = removal_order(&planned.backend, head, "events", "workers").unwrap();
    assert_eq!(
        order["operation_id"],
        format!(
            "kodo-delete-{:016x}-{:016x}-{:016x}",
            1,
            7,
            stable_hash("events", "workers")
        )
    );
    assert_eq!(order["topic"], "events");
    assert_eq!(order["channel"], "workers");
    assert_eq!(order["expected_revision"], 7);
    assert_eq!(removal_outcome(200, None).status, 200);
    assert_eq!(removal_outcome(204, None).body, "OK");
}

#[test]
fn removals_are_refused_in_order() {
    let mut config = kodo_config(0);
    let pool = pool_of(&[1, 2, 3]);
    assert_eq!(
        removal(&config, &pool, "", "").unwrap_err().body,
        "E_NOT_FOUND Kodo cleanup compatibility is disabled"
    );
    config.cleanup_enabled = true;
    let error = removal(&config, &pool, "events", "").unwrap_err();
    assert_eq!(
        (error.status, error.body.as_str()),
        (400, "E_BAD_REQUEST topic and channel are required")
    );
    assert_eq!(
        removal(&config, &pool, "events", "workers")
            .unwrap_err()
            .body,
        "Kodo cleanup tokens are unavailable"
    );
    config.cleanup_token = Some("a".into());
    config.registry_token = Some("b".into());
    assert_eq!(
        removal(&config, &pool_of(&[1, 2]), "events", "workers")
            .unwrap_err()
            .body,
        "complete broker inventory is required for cleanup"
    );
    let head = RegistryHead {
        revision: 7,
        node_id: 2,
    };
    let error = removal_order(&broker(1), head, "events", "workers").unwrap_err();
    assert_eq!(
        (error.status, error.body.as_str()),
        (503, "broker registry identity changed")
    );
    assert_eq!(removal_outcome(409, Some("busy".into())).status, 409);
    assert_eq!(removal_outcome(409, Some("busy".into())).body, "busy");
    assert_eq!(removal_outcome(401, None).status, 502);
    assert_eq!(removal_outcome(403, None).status, 502);
    assert_eq!(removal_outcome(500, None).status, 503);
    assert_eq!(removal_outcome(500, None).body, "broker cleanup failed");
}

#[test]
fn backend_error_body_is_bounded() {
    use_bound(MAX_BACKEND_ERROR_BYTES);
}

fn use_bound(maximum: usize) {
    assert!(rustqueue::discovery::kube_source::within_bound(0, maximum, maximum));
    assert!(!rustqueue::discovery::kube_source::within_bound(0, maximum + 1, maximum));
    assert!(!rustqueue::discovery::kube_source::within_bound(maximum, 1, maximum));
}

// Settings.

fn timers(limits: &ProxyLimits) -> TimerRange {
    let now = Instant::now();
    let fits = |duration: Duration| now.checked_add(duration).is_some();
    TimerRange {
        shutdown: Duration::from_secs(limits.shutdown_grace_seconds)
            .checked_add(Duration::from_secs(2))
            .is_some_and(fits),
        http_body: fits(Duration::from_millis(limits.http_body_timeout_ms)),
        tcp_command: fits(Duration::from_millis(limits.tcp_command_timeout_ms)),
        connection_age: fits(Duration::from_secs(limits.tcp_max_connection_age_seconds)),
    }
}

fn check(limits: &ProxyLimits) -> Result<(), LimitError> {
    validate_proxy_limits(limits, timers(limits))
}

#[test]
fn proxy_limits_enforce_the_wire_and_memory_contract() {
    let mut limits = ProxyLimits::default();
    assert!(check(&limits).is_ok());

    limits.max_message_bytes = MAX_MESSAGE_BYTES + 1;
    limits.max_body_bytes = MAX_BATCH_BYTES;
    assert!(check(&limits).is_err());

    let mut limits = ProxyLimits::default();
    limits.max_inflight_bytes = limits.max_body_bytes - 1;
    assert_eq!(check(&limits), Err(LimitError::Contract));
    assert!(LimitError::Contract.message().starts_with("proxy limits must be non-zero"));
}

#[test]
fn proxy_limits_reject_runtime_panics() {
    let mut limits = ProxyLimits::default();
    limits.max_connections = tokio::sync::Semaphore::MAX_PERMITS + 1;
    assert_eq!(check(&limits), Err(LimitError::Capacity));
    limits.max_connections = tokio::sync::Semaphore::MAX_PERMITS;
    assert_eq!(check(&limits), Ok(()));

    let mut limits = ProxyLimits::default();
    limits.shutdown_grace_seconds = u64::MAX;
    assert_eq!(check(&limits), Err(LimitError::Timers));
    let limits = ProxyLimits::default();
    let mut range = timers(&limits);
    range.connection_age = false;
    assert_eq!(
        validate_proxy_limits(&limits, range),
        Err(LimitError::Timers)
    );
}

#[test]
fn kodo_mode_requires_the_full_hundred_mebibyte_profile() {
    let mut limits = ProxyLimits::default();
    limits.kodo_compatibility_enabled = true;
    limits.max_message_bytes = MAX_MESSAGE_BYTES;
    limits.max_body_bytes = MAX_BATCH_BYTES;
    assert!(check(&limits).is_ok());

    limits.max_message_bytes -= 1;
    assert_eq!(check(&limits), Err(LimitError::Kodo));

    let mut limits = ProxyLimits::default();
    limits.kodo_compatibility_enabled = true;
    limits.max_message_bytes = MAX_MESSAGE_BYTES;
    limits.max_body_bytes = MAX_BATCH_BYTES;
    limits.max_inflight_bytes = limits.max_body_bytes;
    assert_eq!(check(&limits), Err(LimitError::Kodo));
}

#[test]
fn gateway_ordinals_come_from_settings_or_the_pod() {
    assert_eq!(kodo_ordinal(false, false, None, Some("x-1")), Ok(None));
    assert_eq!(kodo_ordinal(true, false, Some(2), None), Ok(Some(2)));
    assert_eq!(
        kodo_ordinal(true, false, None, Some("gateway-1")),
        Ok(Some(1))
    );
    assert_eq!(
        kodo_ordinal(true, true, Some(0), None),
        Err(KodoConfigError::CleanupDisabled)
    );
    assert_eq!(
        kodo_ordinal(false, false, Some(0), None),
        Err(KodoConfigError::OrdinalWithoutCompatibility)
    );
    assert_eq!(
        kodo_ordinal(true, false, None, Some("gateway")),
        Err(KodoConfigError::OrdinalRequired)
    );
    assert_eq!(
        kodo_ordinal(true, false, None, Some("gateway-x")),
        Err(KodoConfigError::OrdinalRequired)
    );
    assert_eq!(
        kodo_ordinal(true, false, Some(3), None),
        Err(KodoConfigError::OrdinalOutOfRange)
    );
    assert_eq!(
        KodoConfigError::OrdinalOutOfRange.message(),
        "Kodo gateway ordinal must be in 0..3"
    );
    assert_eq!(read_token(None), None);
    assert_eq!(read_token(Some(" \n")), None);
    assert_eq!(read_token(Some(" secret\n")), Some("secret".to_owned()));
}

#[test]
fn task_results_are_combined() {
    assert_eq!(
        unexpected_task_exit("TCP", Ok(())),
        "TCP task stopped unexpectedly"
    );
    assert_eq!(
        unexpected_task_exit("HTTP", Err("bind".into())),
        "HTTP task failed: bind"
    );
    assert_eq!(combine_results(Ok(()), Ok(())), Ok(()));
    assert_eq!(combine_results(Err("a".into()), Ok(())), Err("a".into()));
    assert_eq!(combine_results(Ok(()), Err("b".into())), Err("b".into()));
    assert_eq!(
        combine_results(Err("a".into()), Err("b".into())),
        Err("a; shutdown cleanup also failed: b".into())
    );
}

// Connections.

#[test]
fn zero_age_disables_rotation() {
    assert_eq!(jittered_connection_age(0), None);
}

#[test]
fn connection_age_has_bounded_jitter() {
    let mut ages = BTreeSet::new();
    for _ in 0..100 {
        let age = jittered_connection_age(300 * SECOND).unwrap();
        assert!((270..=330).contains(&age));
        ages.insert(age);
    }
    assert!(ages.len() > 1);
    assert_eq!(connection_age_range(300 * SECOND), Some((270, 330)));
    assert_eq!(connection_age_range(1), Some((1, 2)));
    assert_eq!(connection_age_range(2 * SECOND), Some((1, 3)));
    assert_eq!(connection_age_range(25 * SECOND), Some((23, 27)));
}

#[test]
fn working_sets_cover_copies_and_batches() {
    assert_eq!(command_working_set(&Command::Identify, 100), 4396);
    let batch = Command::MultiPublish {
        topic: String::new(),
    };
    assert_eq!(command_working_set(&batch, 100), 100 + 65_536 * 128);
    assert_eq!(command_working_set(&batch, usize::MAX), usize::MAX);
    assert_eq!(command_working_set(&Command::Identify, usize::MAX), usize::MAX);
    assert_eq!(command_working_set(&Command::Noop, 9), 9);
    assert_eq!(
        maximum_gateway_working_set(MAX_MESSAGE_BYTES, MAX_BATCH_BYTES),
        134_217_728 + 8_388_608
    );
    assert_eq!(maximum_gateway_working_set(1, 1), 8_388_609);
    assert_eq!(maximum_gateway_working_set(99_999_999, 1), 99_999_999);
}

// The gateway.

#[test]
fn only_explicit_node_local_rejections_are_retried() {
    assert!(retriable_error(b"E_DRAINING broker is draining"));
    assert!(retriable_error(b"E_CLOSING broker is shutting down"));
    assert!(retriable_error(
        b"E_THROTTLED local disk is above its publish watermark"
    ));
    assert!(retriable_error(
        b"E_PUB_RETRY active topic publish worker limit reached"
    ));
    assert!(!retriable_error(
        b"E_PUB_FAILED local storage is isolated after an earlier failure"
    ));
    assert!(!retriable_error(
        b"E_PUB_FAILED message exceeds configured limit"
    ));
    assert!(!retriable_error(
        b"E_PUB_FAILED topic is protected by an active deletion tombstone"
    ));
}

#[test]
fn no_backend_requests_a_safe_cross_gateway_reconnect() {
    let pool = BackendPool::new();
    let (mut publish, first) = Publish::begin(None, &pool, 0);
    assert!(matches!(first, PublishStep::Draw));
    let result = match publish.step(PublishEvent::Drawn(pool.shuffled(3)), 0) {
        PublishStep::Done(result) => result,
        other => panic!("{other:?}"),
    };
    assert_eq!(result, Err(PublishFailure::RetryByReconnect));
    assert!(matches!(publish_reply(result), PublishReply::Close));
}

#[test]
fn final_backend_rejections_remain_protocol_errors() {
    let error = b"E_PUB_FAILED message exceeds configured limit".to_vec();
    let outcome = verdict(attempt(BrokerEvent::Frame {
        frame_type: 1,
        body: error.clone(),
    }));
    let failure = match outcome {
        Verdict::Failed(failure) => failure,
        other => panic!("{other:?}"),
    };
    assert_eq!(failure, PublishFailure::Final(error.clone()));
    match publish_reply(Err(failure)) {
        PublishReply::Error(e) => assert_eq!(e, error),
        other => panic!("{other:?}"),
    }
}

#[test]
fn idle_client_command_is_bounded_before_the_first_byte() {
    assert!(matches!(read_head(b"", 1024, 1024), Ok(Head::Incomplete)));
    let error = read_timed_out();
    assert!(matches!(error, ReadError::Protocol("E_INVALID", _)));
    assert_eq!(error.message(), "command read timed out");
}

#[test]
fn partial_client_body_releases_its_budget_after_timeout() {
    match read_head(b"PUB events\n\0\0\0\x04x", 1024, 1024) {
        Ok(Head::Body { length, .. }) => assert_eq!(length, 4),
        _ => panic!("the head of a partial publish was not read"),
    }
    assert!(matches!(
        read_timed_out(),
        ReadError::Protocol("E_INVALID", _)
    ));
}

#[test]
fn exhausted_ingress_budget_closes_without_a_protocol_error() {
    assert!(matches!(
        read_head(b"PUB events\n\0\0\0\x02", 1024, 1024),
        Ok(Head::Body { length: 2, .. })
    ));
    let error = no_budget();
    assert!(matches!(error, ReadError::RetryByReconnect(_)));
    assert_eq!(error.code(), "E_THROTTLED");
    assert_eq!(
        error.message(),
        "publish Gateway byte budget is exhausted"
    );
}

#[test]
fn single_message_limit_is_independent_from_the_batch_body_limit() {
    match read_head(b"PUB events\n\0\0\0\x05hello", 4, 64) {
        Err(error) => {
            assert!(matches!(error, ReadError::Protocol("E_BAD_MESSAGE", _)));
            assert_eq!(error.message(), "command body size 5 is outside 1..=4");
        }
        Ok(_) => panic!("oversized PUB was accepted"),
    }
}

#[test]
fn mpub_rejects_an_entry_above_the_single_message_limit() {
    let mut body = 1u32.to_be_bytes().to_vec();
    body.extend_from_slice(&5u32.to_be_bytes());
    body.extend_from_slice(b"hello");
    let mut input = b"MPUB events\n".to_vec();
    input.extend_from_slice(&(body.len() as u32).to_be_bytes());
    input.extend_from_slice(&body);
    let (command, line) = match read_head(&input, 4, 64) {
        Ok(Head::Body { command, line, .. }) => (command, line),
        _ => panic!("the head of a batch was not read"),
    };
    match read_body(command, line, Bytes::from(body), 4) {
        Err(error) => assert!(matches!(error, ReadError::Protocol("E_BAD_MESSAGE", _))),
        Ok(_) => panic!("MPUB entry above the message limit was accepted"),
    }
}

#[test]
fn stalled_backend_write_is_bounded_before_commit() {
    match attempt(BrokerEvent::NotSent) {
        Attempt::Retry(error) => assert_eq!(
            error,
            b"E_PUB_RETRY Broker connection failed before the publish body was complete".to_vec()
        ),
        other => panic!("{other:?}"),
    }
    let pool = pool_of(&[1, 2]);
    let (mut publish, _) = Publish::begin(Some(&broker(1)), &pool, 0);
    let stalled = PublishEvent::Attempted(attempt(BrokerEvent::NotSent));
    assert!(matches!(
        publish.step(stalled, BACKEND_WRITE_TIMEOUT),
        PublishStep::Draw
    ));
    match publish.step(PublishEvent::Drawn(pool.all()), BACKEND_WRITE_TIMEOUT) {
        PublishStep::Connect(backend) => assert_eq!(backend.node_id, 2),
        other => panic!("{other:?}"),
    }
}

#[test]
fn explicit_pre_commit_rejection_retries_another_broker() {
    let pool = pool_of(&[1, 2]);
    let first = broker(1);
    let (mut publish, step) = Publish::begin(Some(&first), &pool, 0);
    assert!(matches!(step, PublishStep::UseCurrent));
    let rejected = attempt(BrokerEvent::Frame {
        frame_type: 1,
        body: b"E_DRAINING broker is draining".to_vec(),
    });
    assert!(matches!(
        publish.step(PublishEvent::Attempted(rejected), 0),
        PublishStep::Draw
    ));
    match publish.step(PublishEvent::Drawn(pool.shuffled(3)), 0) {
        PublishStep::Connect(backend) => assert_eq!(backend.node_id, 2),
        other => panic!("{other:?}"),
    }
    let accepted = attempt(BrokerEvent::Frame {
        frame_type: 0,
        body: OK.to_vec(),
    });
    assert!(matches!(
        publish.step(PublishEvent::Attempted(accepted), 0),
        PublishStep::Done(Ok(()))
    ));
    assert!(matches!(
        publish.step(PublishEvent::NotConnected, 0),
        PublishStep::Done(Err(PublishFailure::RetryByReconnect))
    ));
}

#[test]
fn two_slow_precommit_attempts_fit_the_kodo_read_timeout() {
    let handshake = BACKEND_CONNECT_TIMEOUT + BACKEND_IDENTIFY_TIMEOUT;
    let first_precommit_failure = handshake + BACKEND_WRITE_TIMEOUT;
    let total = first_precommit_failure + NEW_ATTEMPT_BUDGET;
    assert!(total < PUBLISH_DEADLINE);
    assert!(PUBLISH_DEADLINE < 60 * SECOND);
    assert!(NEW_ATTEMPT_BUDGET >= handshake + BACKEND_WRITE_TIMEOUT + BACKEND_TIMEOUT);
}

#[test]
fn brokers_are_tried_at_most_three_times_and_with_time_left() {
    let pool = pool_of(&[1, 2, 3, 4, 5]);
    let (mut publish, step) = Publish::begin(Some(&broker(9)), &pool, 0);
    assert!(matches!(step, PublishStep::Draw));
    let connects = |step: PublishStep| match step {
        PublishStep::Connect(backend) => backend.node_id,
        other => panic!("{other:?}"),
    };
    let drawn = vec![broker(1), broker(1), broker(2), broker(3), broker(4)];
    assert_eq!(connects(publish.step(PublishEvent::Drawn(drawn), 0)), 1);
    assert_eq!(connects(publish.step(PublishEvent::NotConnected, 0)), 2);
    let last = PUBLISH_DEADLINE - NEW_ATTEMPT_BUDGET;
    assert_eq!(connects(publish.step(PublishEvent::NotConnected, last)), 3);
    assert!(matches!(
        publish.step(PublishEvent::NotConnected, 0),
        PublishStep::Done(Err(PublishFailure::RetryByReconnect))
    ));
    assert!(matches!(
        publish.step(PublishEvent::Drawn(vec![broker(5)]), 0),
        PublishStep::Done(Err(PublishFailure::RetryByReconnect))
    ));

    let (mut late, _) = Publish::begin(None, &pool, 0);
    assert!(matches!(
        late.step(PublishEvent::Drawn(pool.all()), last + 1),
        PublishStep::Done(Err(PublishFailure::RetryByReconnect))
    ));
    assert!(matches!(
        late.step(PublishEvent::NotConnected, 2 * PUBLISH_DEADLINE),
        PublishStep::Done(Err(PublishFailure::RetryByReconnect))
    ));
}

#[test]
fn settled_attempts_end_the_search() {
    let pool = pool_of(&[1, 2]);
    let ends = |event: BrokerEvent| {
        let (mut publish, _) = Publish::begin(Some(&broker(1)), &pool, 0);
        match publish.step(PublishEvent::Attempted(attempt(event)), 0) {
            PublishStep::Done(result) => result,
            other => panic!("{other:?}"),
        }
    };
    assert_eq!(
        ends(BrokerEvent::Frame {
            frame_type: 1,
            body: b"E_BAD_TOPIC no".to_vec()
        }),
        Err(PublishFailure::Final(b"E_BAD_TOPIC no".to_vec()))
    );
    match ends(BrokerEvent::TimedOut) {
        Err(PublishFailure::Ambiguous(text)) => assert!(text.starts_with(b"E_AMBIGUOUS ")),
        other => panic!("{other:?}"),
    }
}

#[test]
fn lost_answers_are_ambiguous() {
    for (event, detail) in [
        (
            BrokerEvent::NotFlushed,
            "Broker connection failed after sending the body",
        ),
        (
            BrokerEvent::Frame {
                frame_type: 0,
                body: b"CLOSE_WAIT".to_vec(),
            },
            "Broker returned an invalid publish response",
        ),
        (
            BrokerEvent::Frame {
                frame_type: 2,
                body: OK.to_vec(),
            },
            "Broker returned an invalid publish response",
        ),
        (
            BrokerEvent::ReadFailed("reset".into()),
            "Broker response failed: reset",
        ),
        (BrokerEvent::TimedOut, "Broker publish response timed out"),
    ] {
        match verdict(attempt(event)) {
            Verdict::Failed(PublishFailure::Ambiguous(e)) => {
                assert_eq!(e, format!("E_AMBIGUOUS {detail}").into_bytes());
                assert!(matches!(
                    publish_reply(Err(PublishFailure::Ambiguous(e))),
                    PublishReply::ErrorAndClose(_)
                ));
            }
            other => panic!("{other:?}"),
        }
    }
    assert!(matches!(publish_reply(Ok(())), PublishReply::Success));
}

#[test]
fn command_heads_are_read_from_what_has_arrived() {
    assert!(matches!(read_head(b"NOP", 1, 1), Ok(Head::Incomplete)));
    match read_head(b"NOP\nNOP\n", 1, 1) {
        Ok(Head::Bare { command, line }) => {
            assert_eq!(command, Command::Noop);
            assert_eq!(line, b"NOP\n");
        }
        _ => panic!("NOP was not read"),
    }
    assert!(matches!(
        read_head(b"PUB events\n\0\0", 1, 1),
        Ok(Head::Incomplete)
    ));
    match read_head(b"BOGUS\n", 1, 1) {
        Err(error) => assert_eq!(error.code(), "E_INVALID"),
        Ok(_) => panic!("an unknown command was accepted"),
    }
    match read_head(b"IDENTIFY\n\0\0\0\0", 1, 1) {
        Err(error) => {
            assert_eq!(error.code(), "E_BAD_BODY");
            assert_eq!(
                error.message(),
                "command body size 0 is outside 1..=1048576"
            );
        }
        Ok(_) => panic!("an empty IDENTIFY was accepted"),
    }
    let mut longest = vec![b'x'; 1024];
    assert!(matches!(read_head(&longest, 1, 1), Ok(Head::Incomplete)));
    longest.push(b'\n');
    match read_head(&longest, 1, 1) {
        Err(error) => assert_eq!(error.message(), "command line exceeds limit"),
        Ok(_) => panic!("a long line was accepted"),
    }
    assert_eq!(ReadError::Io("reset".into()).code(), "E_INVALID");
    assert_eq!(ReadError::Io("reset".into()).message(), "reset");
}

#[test]
fn commands_are_forwarded_as_they_were_read() {
    let command = ClientCommand {
        command: Command::Publish {
            topic: "events".into(),
        },
        line: b"PUB events\n".to_vec(),
        body: Some(Bytes::from_static(b"payload")),
    };
    assert_eq!(command.head(), b"PUB events\n\0\0\0\x07".to_vec());
    let bare = ClientCommand {
        command: Command::Noop,
        line: b"NOP\n".to_vec(),
        body: None,
    };
    assert_eq!(bare.head(), b"NOP\n".to_vec());
    let mut batch = 1u32.to_be_bytes().to_vec();
    batch.extend_from_slice(&2u32.to_be_bytes());
    batch.extend_from_slice(b"hi");
    let read = read_body(
        Command::MultiPublish { topic: "t".into() },
        b"MPUB t\n".to_vec(),
        Bytes::from(batch),
        4,
    );
    assert_eq!(read.unwrap().head(), b"MPUB t\n\0\0\0\x0a".to_vec());
}

#[test]
fn brokers_are_greeted_and_their_first_frame_decides() {
    assert!(speaks_v2(&MAGIC_V2));
    assert!(!speaks_v2(b"  V1"));
    assert!(!speaks_v2(b"  V2 "));
    assert_eq!(handshake(b"{}"), b"  V2IDENTIFY\n\0\0\0\x02{}".to_vec());
    assert_eq!(handshake_reply(0), Ok(()));
    assert_eq!(handshake_reply(1), Err(HandshakeError::Refused));
    assert_eq!(handshake_reply(2), Err(HandshakeError::InvalidFrame));
    assert_eq!(frame_body_size(3), None);
    assert_eq!(frame_body_size(4), Some(0));
    assert_eq!(frame_body_size(1_048_576), Some(1_048_572));
    assert_eq!(frame_body_size(1_048_577), None);
    assert_eq!(
        error_body("E_INVALID", "two\r\nlines"),
        b"E_INVALID two  lines".to_vec()
    );
    assert_eq!(HEARTBEAT.to_vec(), b"_heartbeat_".to_vec());
}

#[test]
fn producers_settings_reach_brokers_without_compression() {
    let read = |bytes: Vec<u8>| {
        serde_json::from_slice::<serde_json::Value>(&bytes).unwrap()
    };
    let identify = read(
        backend_identify_body(br#"{"client_id":"c","tls_v1":true,"heartbeat_interval":5,"load":1.5}"#)
            .unwrap(),
    );
    assert_eq!(identify["client_id"], "c");
    assert_eq!(identify["load"], 1.5);
    assert_eq!(identify["tls_v1"], false);
    assert_eq!(identify["snappy"], false);
    assert_eq!(identify["deflate"], false);
    assert_eq!(identify["feature_negotiation"], true);
    assert_eq!(identify["heartbeat_interval"], -1);
    assert_eq!(backend_identify_body(b"[]"), None);
    assert_eq!(backend_identify_body(b"{"), None);
    assert_eq!(backend_identify_of(None), None);
    let default = read(default_backend_identify());
    assert_eq!(default["user_agent"], "rustqueue-kodo-gateway");
    assert_eq!(default["heartbeat_interval"], -1);
    assert_eq!(default["tls_v1"], false);
}

fn refusal(action: SessionAction) -> (&'static str, &'static str) {
    match action {
        SessionAction::Refuse { code, detail } => (code, detail),
        other => panic!("{other:?}"),
    }
}

#[test]
fn producers_identify_themselves_once() {
    let mut session = Session::new();
    let request = IdentifyRequest {
        heartbeat_interval: Some(1_000),
        msg_timeout: Some(5),
        ..Default::default()
    };
    match session.command(&Command::Identify, b"{}", Some(&request)) {
        SessionAction::Respond(response) => {
            assert_eq!(response.max_rdy_count, 2_500);
            assert_eq!(response.version, "0.8.3");
            assert_eq!(response.max_msg_timeout, 900_000);
            assert_eq!(response.msg_timeout, 1_000);
            assert_eq!(response.output_buffer_size, 16_384);
            assert_eq!(response.output_buffer_timeout, 250);
            assert!(!response.tls_v1 && !response.deflate && !response.snappy);
        }
        other => panic!("{other:?}"),
    }
    assert!(session.identified);
    assert_eq!(session.heartbeat_due(), 1_000);
    assert_eq!(
        refusal(session.command(&Command::Identify, b"{}", Some(&request))),
        ("E_INVALID", "IDENTIFY may only be sent once")
    );
}

#[test]
fn identify_is_refused_for_what_gateways_do_not_offer() {
    let mut session = Session::new();
    assert_eq!(session.heartbeat_due(), 30_000);
    assert_eq!(
        refusal(session.command(&Command::Identify, b"x", None)),
        ("E_BAD_BODY", "IDENTIFY body is invalid")
    );
    let tls = IdentifyRequest {
        tls_v1: true,
        ..Default::default()
    };
    assert_eq!(
        refusal(session.command(&Command::Identify, b"{}", Some(&tls))).0,
        "E_IDENTIFY_FAILED"
    );
    for interval in [0, 999, 300_001, -2] {
        let request = IdentifyRequest {
            heartbeat_interval: Some(interval),
            ..Default::default()
        };
        assert_eq!(
            refusal(session.command(&Command::Identify, b"{}", Some(&request))),
            (
                "E_IDENTIFY_FAILED",
                "heartbeat_interval is outside 1000..=300000"
            )
        );
    }
    let plain = IdentifyRequest::default();
    assert!(matches!(
        session.command(&Command::Identify, b"[]", Some(&plain)),
        SessionAction::Close
    ));
    assert!(!session.identified);
    let silent = IdentifyRequest {
        heartbeat_interval: Some(-1),
        ..Default::default()
    };
    assert!(matches!(
        session.command(&Command::Identify, b"{}", Some(&silent)),
        SessionAction::Respond(_)
    ));
    assert_eq!(session.heartbeat_ms, None);
    assert_eq!(session.heartbeat_due(), 365 * 24 * 60 * 60 * 1000);
}

#[test]
fn gateways_publish_and_do_nothing_else() {
    let mut session = Session::new();
    let topic = || "t".to_owned();
    for command in [
        Command::Publish { topic: topic() },
        Command::MultiPublish { topic: topic() },
        Command::DeferredPublish {
            topic: topic(),
            delay_ms: 5,
        },
    ] {
        assert!(matches!(
            session.command(&command, b"", None),
            SessionAction::Publish
        ));
    }
    assert!(matches!(
        session.command(&Command::Noop, b"", None),
        SessionAction::Ignore
    ));
    assert_eq!(
        refusal(session.command(&Command::Auth, b"", None)),
        ("E_AUTH_DISABLED", "AUTH disabled")
    );
    for command in [Command::Ready(1), Command::Finish(2), Command::Close] {
        assert_eq!(
            refusal(session.command(&command, b"", None)),
            (
                "E_INVALID",
                "publish Gateway accepts only IDENTIFY, PUB, MPUB, DPUB, and NOP"
            )
        );
    }
}
