//! The HTTP interface of a gateway for Kodo.
use crate::json::{Doc, JsonView};
use crate::proxy::backend::{Backend, BackendPool};
use crate::proxy::limits::KodoConfig;
use crate::{digest, json, text, text_list};
use serde_json::Value;
use vstd::prelude::*;
use vstd::string::*;
use vstd::utf8::*;

verus! {

/// How many brokers a complete cluster has.
pub const EXPECTED_BROKERS: usize = 3;

/// How many brokers the statistics of one gateway are gathered from.
pub const MAX_STATS_BACKENDS_PER_SHARD: usize = 16;

/// The largest head of a registry, in bytes.
pub const MAX_REGISTRY_HEAD_BYTES: usize = 65536;

/// The largest error of a broker, in bytes.
pub const MAX_BACKEND_ERROR_BYTES: usize = 65536;

/// An answer: a status and a text.
#[derive(Clone, Debug, PartialEq, Eq)]
pub struct TextReply {
    pub status: u16,
    pub body: String,
}

/// `TextReply` with its body as a text.
pub struct TextReplyView {
    pub status: u16,
    pub body: Seq<char>,
}

impl View for TextReply {
    type V = TextReplyView;

    open spec fn view(&self) -> TextReplyView {
        TextReplyView { status: self.status, body: self.body@ }
    }
}

/// An answer with this status and text.
pub open spec fn answer(status: u16, body: Seq<char>) -> TextReplyView {
    TextReplyView { status, body }
}

/// An answer with this status and text.
pub fn reply(status: u16, body: &str) -> (r: TextReply)
    ensures
        r@ == answer(status, body@),
{
    TextReply { status, body: body.to_owned() }
}

/// What goes wrong with a request, or with what a broker is asked for it.
#[derive(Clone, Copy, Debug, PartialEq, Eq)]
pub enum Trouble {
    /// The request names no topic or no channel.
    NoChannel,
    /// A broker has not given its statistics.
    StatsUnavailable,
    /// The statistics of a broker cannot be read.
    StatsInvalid,
    /// The statistics of all brokers are too large.
    StatsTooLarge,
    /// A broker has not given the head of its registry.
    RegistryUnavailable,
    /// The head of a registry cannot be read.
    RegistryInvalid,
    /// A broker could not be told to remove a channel.
    CleanupUnavailable,
}

/// What a caller is told of what went wrong.
pub open spec fn told(trouble: Trouble) -> TextReplyView {
    match trouble {
        Trouble::NoChannel => answer(400, "E_BAD_REQUEST topic and channel are required"@),
        Trouble::StatsUnavailable => answer(503, "broker stats are unavailable"@),
        Trouble::StatsInvalid => answer(503, "broker stats are invalid"@),
        Trouble::StatsTooLarge => answer(503, "broker stats aggregate is too large"@),
        Trouble::RegistryUnavailable => answer(503, "broker registry is unavailable"@),
        Trouble::RegistryInvalid => answer(503, "broker registry is invalid"@),
        Trouble::CleanupUnavailable => answer(503, "broker cleanup is unavailable"@),
    }
}

/// What a caller is told of what went wrong.
pub fn trouble_reply(trouble: Trouble) -> (r: TextReply)
    ensures
        r@ == told(trouble),
{
    match trouble {
        Trouble::NoChannel => reply(400, "E_BAD_REQUEST topic and channel are required"),
        Trouble::StatsUnavailable => reply(503, "broker stats are unavailable"),
        Trouble::StatsInvalid => reply(503, "broker stats are invalid"),
        Trouble::StatsTooLarge => reply(503, "broker stats aggregate is too large"),
        Trouble::RegistryUnavailable => reply(503, "broker registry is unavailable"),
        Trouble::RegistryInvalid => reply(503, "broker registry is invalid"),
        Trouble::CleanupUnavailable => reply(503, "broker cleanup is unavailable"),
    }
}

/// Whether a gateway with this ordinal answers for a broker.
pub open spec fn in_shard(node_id: u64, ordinal: nat) -> bool {
    (if node_id == 0 {
        0
    } else {
        node_id - 1
    }) % 3 == ordinal
}

/// The brokers that a gateway with this ordinal answers for.
pub open spec fn shard(backends: Seq<Backend>, ordinal: nat) -> Seq<Backend> {
    backends.filter(|b: Backend| in_shard(b.node_id, ordinal))
}

proof fn lemma_shard_grows(backends: Seq<Backend>, ordinal: nat, i: int)
    requires
        0 <= i <= backends.len(),
    ensures
        shard(backends.take(i), ordinal).len() <= shard(backends, ordinal).len(),
    decreases backends.len(),
{
    reveal(Seq::filter);
    if i < backends.len() {
        lemma_shard_grows(backends.drop_last(), ordinal, i);
        assert(backends.drop_last().take(i) =~= backends.take(i));
    } else {
        assert(backends.take(i) =~= backends);
    }
}

/// The brokers that a gateway answers for; nothing where there are more than `maximum`.
pub fn sharded_backends(pool: &BackendPool, ordinal: usize, maximum: usize) -> (r: Option<
    Vec<Backend>,
>)
    ensures
        ({
            let s = shard(pool.backends@, ordinal as nat);
            match r {
                Some(v) => v@ == if ordinal >= EXPECTED_BROKERS {
                    Seq::<Backend>::empty()
                } else {
                    s
                } && v@.len() <= maximum,
                None => ordinal < EXPECTED_BROKERS && s.len() > maximum,
            }
        }),
{
    if ordinal >= EXPECTED_BROKERS {
        return Some(Vec::new());
    }
    let ghost s = pool.backends@;
    let mut found: Vec<Backend> = Vec::new();
    let mut i: usize = 0;
    while i < pool.backends.len()
        invariant
            s == pool.backends@,
            ordinal < 3,
            i <= s.len(),
            found@ == shard(s.take(i as int), ordinal as nat),
            found@.len() <= maximum,
        decreases s.len() - i,
    {
        proof {
            reveal(Seq::filter);
            assert(s.take(i + 1).drop_last() =~= s.take(i as int));
            assert(s.take(i + 1).last() == s[i as int]);
            lemma_shard_grows(s, ordinal as nat, i + 1);
        }
        if pool.backends[i].node_id.saturating_sub(1) % 3 == ordinal as u64 {
            if found.len() == maximum {
                return None;
            }
            found.push(pool.backends[i].duplicate());
        }
        i += 1;
    }
    assert(s.take(i as int) =~= s);
    Some(found)
}

/// The one broker that a gateway answers for.
pub open spec fn shard_broker(backends: Seq<Backend>, ordinal: nat) -> Option<Backend> {
    if ordinal < EXPECTED_BROKERS && shard(backends, ordinal).len() == 1 {
        Some(shard(backends, ordinal)[0])
    } else {
        None
    }
}

/// The one broker that a gateway answers for; nothing where there are more.
pub fn sharded_backend(pool: &BackendPool, ordinal: usize) -> (r: Option<Backend>)
    ensures
        r == shard_broker(pool.backends@, ordinal as nat),
{
    match sharded_backends(pool, ordinal, 1) {
        None => None,
        Some(v) => if v.len() == 0 {
            None
        } else {
            Some(v[0].duplicate())
        },
    }
}

/// The one broker that a gateway answers for, where the cluster is complete.
pub fn complete_sharded_backend(pool: &BackendPool, ordinal: usize) -> (r: Option<Backend>)
    ensures
        r == if pool.backends@.len() == EXPECTED_BROKERS {
            shard_broker(pool.backends@, ordinal as nat)
        } else {
            None
        },
{
    if pool.backends.len() != EXPECTED_BROKERS {
        None
    } else {
        sharded_backend(pool, ordinal)
    }
}

/// Every broker belongs to one gateway.
pub proof fn law_every_broker_has_one_gateway(node_id: u64, a: nat, b: nat)
    ensures
        in_shard(node_id, 0) || in_shard(node_id, 1) || in_shard(node_id, 2),
        in_shard(node_id, a) && in_shard(node_id, b) ==> a == b,
        in_shard(node_id, a) ==> a < EXPECTED_BROKERS,
{
}

/// Whether a parameter of a query stays: it is not empty and not the format.
pub open spec fn stays(parameter: Seq<char>) -> bool {
    parameter.len() > 0 && match text::split_first(parameter, '=') {
        Some((key, _)) => key != "format"@,
        None => parameter != "format"@,
    }
}

/// The parameters of a query that stay.
pub open spec fn parameters(query: Seq<char>) -> Seq<Seq<char>> {
    text_list::parts(query, '&').filter(|p: Seq<char>| stays(p))
}

/// A path and a query.
pub open spec fn target_parts(target: Seq<char>) -> (Seq<char>, Seq<char>) {
    match text::split_first(target, '?') {
        Some((path, query)) => (path, query),
        None => (target, Seq::empty()),
    }
}

/// A target that asks for JSON, with the other parameters as they were.
pub open spec fn json_target(target: Seq<char>) -> Seq<char> {
    let (path, query) = target_parts(target);
    path + "?"@ + text_list::joined(parameters(query).push("format=json"@), "&"@)
}

fn parameter_stays(parameter: &str) -> (r: bool)
    ensures
        r == stays(parameter@),
{
    proof {
        reveal_strlit("");
        assert(parameter@.len() == 0 ==> parameter@ =~= ""@);
    }
    if text::str_eq(parameter, "") {
        return false;
    }
    match text::split_once(parameter, '=') {
        Some((key, _)) => !text::str_eq(key.as_str(), "format"),
        None => !text::str_eq(parameter, "format"),
    }
}

/// The target that brokers are asked for statistics with: always as JSON, with the other
/// parameters as they were.
pub fn force_json_stats(path_and_query: &str) -> (r: String)
    ensures
        r@ == json_target(path_and_query@),
{
    let (path, query) = match text::split_once(path_and_query, '?') {
        Some((path, query)) => (path, query),
        None => (path_and_query.to_owned(), String::new()),
    };
    proof {
        assert(query@ =~= target_parts(path_and_query@).1);
    }
    let all = text_list::split(query.as_str(), '&');
    let ghost t = text::texts(all@);
    let mut kept: Vec<String> = Vec::new();
    let mut i: usize = 0;
    proof {
        reveal(Seq::filter);
        assert(text::texts(kept@) =~= t.take(0).filter(|p: Seq<char>| stays(p)));
    }
    while i < all.len()
        invariant
            t == text::texts(all@),
            i <= all@.len(),
            text::texts(kept@) == t.take(i as int).filter(|p: Seq<char>| stays(p)),
        decreases all@.len() - i,
    {
        let ghost had = text::texts(kept@);
        proof {
            reveal(Seq::filter);
            assert(t.take(i + 1).drop_last() =~= t.take(i as int));
            assert(t.take(i + 1).last() == t[i as int]);
            assert(t[i as int] == all@[i as int]@);
        }
        if parameter_stays(all[i].as_str()) {
            kept.push(all[i].clone());
            assert(text::texts(kept@) =~= had.push(t[i as int]));
        }
        i += 1;
    }
    proof {
        assert(t.take(i as int) =~= t);
    }
    let ghost had = text::texts(kept@);
    kept.push("format=json".to_owned());
    assert(text::texts(kept@) =~= had.push("format=json"@));
    let mut r = path;
    r.append("?");
    r.append(text_list::join(&kept, "&").as_str());
    r
}

/// The bytes that identify a channel of a topic.
pub open spec fn channel_bytes(topic: Seq<char>, channel: Seq<char>) -> Seq<u8> {
    encode_utf8(topic).push(0u8) + encode_utf8(channel)
}

/// A number with one more byte mixed in, by the FNV-1a rule.
pub open spec fn mixed(hash: u64, byte: u8) -> u64 {
    ((hash ^ (byte as u64)) * 0x100000001b3 % 0x1_0000_0000_0000_0000) as u64
}

/// The FNV-1a hash of some bytes.
pub open spec fn fnv(bytes: Seq<u8>) -> u64
    decreases bytes.len(),
{
    if bytes.len() == 0 {
        0xcbf29ce484222325
    } else {
        mixed(fnv(bytes.drop_last()), bytes.last())
    }
}

fn mix(hash: u64, byte: u8) -> (r: u64)
    ensures
        r == mixed(hash, byte),
{
    let x: u64 = hash ^ (byte as u64);
    let wide: u128 = (x as u128) * 0x100000001b3u128;
    (wide % 0x1_0000_0000_0000_0000u128) as u64
}

fn mix_all(hash: u64, bytes: &[u8], before: Ghost<Seq<u8>>) -> (r: u64)
    requires
        hash == fnv(before@),
    ensures
        r == fnv(before@ + bytes@),
{
    let mut r: u64 = hash;
    let mut i: usize = 0;
    assert(before@ + bytes@.take(0) =~= before@);
    while i < bytes.len()
        invariant
            i <= bytes@.len(),
            r == fnv(before@ + bytes@.take(i as int)),
        decreases bytes@.len() - i,
    {
        r = mix(r, bytes[i]);
        proof {
            let next = before@ + bytes@.take(i + 1);
            assert(next.drop_last() =~= before@ + bytes@.take(i as int));
            assert(next.last() == bytes@[i as int]);
        }
        i += 1;
    }
    assert(bytes@.take(i as int) =~= bytes@);
    r
}

/// A number for a channel of a topic that is the same in every process.
pub fn stable_hash(topic: &str, channel: &str) -> (r: u64)
    ensures
        r == fnv(channel_bytes(topic@, channel@)),
{
    let ghost none = Seq::<u8>::empty();
    let ghost first = encode_utf8(topic@);
    let a = mix_all(0xcbf29ce484222325u64, digest::text_bytes(topic), Ghost(none));
    proof {
        assert(none + first =~= first);
        assert(first.push(0u8).drop_last() =~= first);
    }
    let b = mix(a, 0u8);
    mix_all(b, digest::text_bytes(channel), Ghost(first.push(0u8)))
}

/// The name of the removal of a channel.
pub open spec fn removal_id(node_id: nat, revision: nat, hash: nat) -> Seq<char> {
    "kodo-delete-"@ + text::hex_fixed(node_id, 16) + "-"@ + text::hex_fixed(revision, 16) + "-"@
        + text::hex_fixed(hash, 16)
}

/// What a channel is removed from, and the tokens for it.
#[derive(Clone, Debug)]
pub struct Removal {
    pub backend: Backend,
    pub cleanup_token: String,
    pub registry_token: String,
}

/// Why a channel is not removed, before any broker is asked.
pub open spec fn removal_refused(
    config: KodoConfig,
    backends: Seq<Backend>,
    topic: Seq<char>,
    channel: Seq<char>,
) -> Option<TextReplyView> {
    if !config.cleanup_enabled {
        Some(answer(404, "E_NOT_FOUND Kodo cleanup compatibility is disabled"@))
    } else if topic.len() == 0 || channel.len() == 0 {
        Some(answer(400, "E_BAD_REQUEST topic and channel are required"@))
    } else if config.cleanup_token is None || config.registry_token is None {
        Some(answer(503, "Kodo cleanup tokens are unavailable"@))
    } else if backends.len() != EXPECTED_BROKERS || shard_broker(
        backends,
        config.ordinal as nat,
    ) is None {
        Some(answer(503, "complete broker inventory is required for cleanup"@))
    } else {
        None
    }
}

fn is_empty(s: &str) -> (r: bool)
    ensures
        r == (s@.len() == 0),
{
    proof {
        reveal_strlit("");
        assert(s@.len() == 0 ==> s@ =~= ""@);
    }
    text::str_eq(s, "")
}

/// Which broker a channel is removed from.
pub fn removal(config: &KodoConfig, pool: &BackendPool, topic: &str, channel: &str) -> (r: Result<
    Removal,
    TextReply,
>)
    ensures
        match r {
            Ok(removal) => removal_refused(*config, pool.backends@, topic@, channel@) is None
                && shard_broker(pool.backends@, config.ordinal as nat) == Some(removal.backend)
                && text::opt_text(config.cleanup_token) == Some(removal.cleanup_token@)
                && text::opt_text(config.registry_token) == Some(removal.registry_token@),
            Err(reply) => removal_refused(*config, pool.backends@, topic@, channel@) == Some(
                reply@,
            ),
        },
{
    if !config.cleanup_enabled {
        return Err(reply(404, "E_NOT_FOUND Kodo cleanup compatibility is disabled"));
    }
    if is_empty(topic) || is_empty(channel) {
        return Err(reply(400, "E_BAD_REQUEST topic and channel are required"));
    }
    match (&config.cleanup_token, &config.registry_token) {
        (Some(cleanup), Some(registry)) => {
            match complete_sharded_backend(pool, config.ordinal) {
                None => Err(reply(503, "complete broker inventory is required for cleanup")),
                Some(backend) => Ok(
                    Removal {
                        backend,
                        cleanup_token: cleanup.clone(),
                        registry_token: registry.clone(),
                    },
                ),
            }
        },
        _ => Err(reply(503, "Kodo cleanup tokens are unavailable")),
    }
}

/// The head of a broker's registry.
#[derive(Clone, Copy, Debug)]
pub struct RegistryHead {
    pub revision: u64,
    pub node_id: u64,
}

/// The order to remove a channel.
pub open spec fn removal_json(
    node_id: nat,
    revision: nat,
    topic: Seq<char>,
    channel: Seq<char>,
) -> JsonView {
    JsonView::object().text(
        "operation_id"@,
        removal_id(node_id, revision, fnv(channel_bytes(topic, channel)) as nat),
    ).text("topic"@, topic).text("channel"@, channel).number("expected_revision"@, revision as int)
}

/// The order that a broker gets to remove a channel; none where the broker that answers is
/// another one.
pub fn removal_order(backend: &Backend, registry: RegistryHead, topic: &str, channel: &str) -> (r:
    Result<Value, TextReply>)
    ensures
        match r {
            Ok(order) => registry.node_id == backend.node_id && json::json_held(order)
                == removal_json(
                registry.node_id as nat,
                registry.revision as nat,
                topic@,
                channel@,
            ),
            Err(reply) => registry.node_id != backend.node_id && reply@ == answer(
                503,
                "broker registry identity changed"@,
            ),
        },
{
    if registry.node_id != backend.node_id {
        return Err(reply(503, "broker registry identity changed"));
    }
    let mut id = "kodo-delete-".to_owned();
    id.append(text::hex_digits(registry.node_id, 16).as_str());
    id.append("-");
    id.append(text::hex_digits(registry.revision, 16).as_str());
    id.append("-");
    id.append(text::hex_digits(stable_hash(topic, channel), 16).as_str());
    Ok(
        Doc::new().text("operation_id", id.as_str()).text("topic", topic).text(
            "channel",
            channel,
        ).count("expected_revision", registry.revision).done(),
    )
}

/// The status that a caller gets for the status that a broker has given.
pub open spec fn outward(status: u16) -> u16 {
    if status == 409 {
        409
    } else if status == 401 || status == 403 {
        502
    } else {
        503
    }
}

/// What a caller is told after a broker has answered an order to remove a channel. `detail` is
/// the broker's text, where it could be read.
pub fn removal_outcome(status: u16, detail: Option<String>) -> (r: TextReply)
    ensures
        r@ == if 200 <= status < 300 {
            answer(200, "OK"@)
        } else {
            answer(
                outward(status),
                match detail {
                    Some(d) => d@,
                    None => "broker cleanup failed"@,
                },
            )
        },
{
    if 200 <= status && status < 300 {
        return reply(200, "OK");
    }
    let status: u16 = if status == 409 {
        409
    } else if status == 401 || status == 403 {
        502
    } else {
        503
    };
    let body = match detail {
        Some(d) => d,
        None => "broker cleanup failed".to_owned(),
    };
    TextReply { status, body }
}

/// The refusal of a broker's credentials is not passed on as one of the caller's.
pub proof fn law_broker_credentials_are_not_the_callers(status: u16)
    ensures
        outward(status) != 401,
        outward(status) != 403,
        outward(status) == 409 <==> status == 409,
{
}

/// The brokers that statistics are gathered from.
pub fn stats_backends(config: &KodoConfig, pool: &BackendPool) -> (r: Result<
    Vec<Backend>,
    TextReply,
>)
    ensures
        ({
            let s = shard(pool.backends@, config.ordinal as nat);
            match r {
                Ok(v) => config.ordinal < EXPECTED_BROKERS && v@ == s && 0 < s.len()
                    <= MAX_STATS_BACKENDS_PER_SHARD,
                Err(reply) => if config.ordinal < EXPECTED_BROKERS && s.len()
                    > MAX_STATS_BACKENDS_PER_SHARD {
                    reply@ == answer(503, "gateway stats shard has too many brokers"@)
                } else {
                    reply@ == answer(503, "gateway stats shard has no broker"@) && (config.ordinal
                        >= EXPECTED_BROKERS || s.len() == 0)
                },
            }
        }),
{
    match sharded_backends(pool, config.ordinal, MAX_STATS_BACKENDS_PER_SHARD) {
        None => Err(reply(503, "gateway stats shard has too many brokers")),
        Some(v) => if v.len() == 0 {
            Err(reply(503, "gateway stats shard has no broker"))
        } else {
            Ok(v)
        },
    }
}

/// Seconds since the epoch as a signed number, or the largest one.
pub fn unix_seconds(seconds: u64) -> (r: i64)
    ensures
        r == if seconds > i64::MAX {
            i64::MAX as int
        } else {
            seconds as int
        },
{
    if seconds > i64::MAX as u64 {
        i64::MAX
    } else {
        seconds as i64
    }
}

proof fn lemma_shard_contains(backends: Seq<Backend>, ordinal: nat, b: Backend)
    ensures
        shard(backends, ordinal).contains(b) <==> backends.contains(b) && in_shard(
            b.node_id,
            ordinal,
        ),
    decreases backends.len(),
{
    reveal(Seq::filter);
    let all = shard(backends, ordinal);
    if backends.len() > 0 {
        let d = backends.drop_last();
        let before = shard(d, ordinal);
        lemma_shard_contains(d, ordinal, b);
        if d.contains(b) {
            let w = d.index_of(b);
            assert(backends[w] == b);
        }
        if before.contains(b) {
            let w = before.index_of(b);
            assert(all[w] == b);
        }
        if all.contains(b) {
            let w = all.index_of(b);
            if w < before.len() {
                assert(before[w] == b);
            } else {
                assert(backends[backends.len() - 1] == b);
            }
        }
        if backends.contains(b) && in_shard(b.node_id, ordinal) {
            let w = backends.index_of(b);
            if w < d.len() {
                assert(d[w] == b);
            } else {
                assert(all[all.len() - 1] == b);
            }
        }
    }
}

/// A gateway answers for exactly the brokers of the pool whose turn among three is its own:
/// brokers 1, 4, 7 and so on belong to the first, 2, 5, 8 to the second, 3, 6, 9 to the third.
pub proof fn law_gateways_answer_for_every_third_broker(
    backends: Seq<Backend>,
    ordinal: nat,
    b: Backend,
)
    requires
        b.node_id > 0,
    ensures
        shard(backends, ordinal).contains(b) <==> backends.contains(b) && (b.node_id - 1) % 3
            == ordinal,
{
    lemma_shard_contains(backends, ordinal, b);
}

/// The one broker of a gateway is of the pool and belongs to the gateway, and no other broker
/// of the pool does.
pub proof fn law_the_broker_of_a_gateway_is_its_only_one(
    backends: Seq<Backend>,
    ordinal: nat,
    c: Backend,
)
    requires
        shard_broker(backends, ordinal) is Some,
    ensures
        backends.contains(shard_broker(backends, ordinal)->0),
        in_shard(shard_broker(backends, ordinal)->0.node_id, ordinal),
        backends.contains(c) && in_shard(c.node_id, ordinal) ==> c == shard_broker(
            backends,
            ordinal,
        )->0,
{
    let s = shard(backends, ordinal);
    let b = s[0];
    assert(s.contains(b));
    lemma_shard_contains(backends, ordinal, b);
    lemma_shard_contains(backends, ordinal, c);
    if s.contains(c) {
        let w = s.index_of(c);
        assert(w == 0);
    }
}

/// A channel is removed only where removal is enabled, a topic and a channel are named, both
/// tokens are there and all three brokers are known; each failing is told as what it is.
pub proof fn law_removal_needs_everything(
    config: KodoConfig,
    backends: Seq<Backend>,
    topic: Seq<char>,
    channel: Seq<char>,
)
    ensures
        removal_refused(config, backends, topic, channel) is None <==> {
            &&& config.cleanup_enabled
            &&& topic.len() > 0 && channel.len() > 0
            &&& config.cleanup_token is Some && config.registry_token is Some
            &&& backends.len() == 3
            &&& shard_broker(backends, config.ordinal as nat) is Some
        },
        !config.cleanup_enabled ==> removal_refused(config, backends, topic, channel)->0.status
            == 404,
        config.cleanup_enabled && (topic.len() == 0 || channel.len() == 0) ==> removal_refused(
            config,
            backends,
            topic,
            channel,
        )->0.status == 400,
        config.cleanup_enabled && topic.len() > 0 && channel.len() > 0 && removal_refused(
            config,
            backends,
            topic,
            channel,
        ) is Some ==> removal_refused(config, backends, topic, channel)->0.status == 503,
{
}

/// The order to remove a channel names the channel, its topic, and the revision at which it was
/// looked at.
pub proof fn law_removal_orders_name_the_channel(
    node_id: nat,
    revision: nat,
    topic: Seq<char>,
    channel: Seq<char>,
)
    ensures
        json::member(removal_json(node_id, revision, topic, channel), "topic"@) == Some(
            JsonView::Text(topic),
        ),
        json::member(removal_json(node_id, revision, topic, channel), "channel"@) == Some(
            JsonView::Text(channel),
        ),
        json::member(removal_json(node_id, revision, topic, channel), "expected_revision"@) == Some(
            JsonView::Number(revision as int),
        ),
        json::member(removal_json(node_id, revision, topic, channel), "operation_id"@) == Some(
            JsonView::Text(
                removal_id(node_id, revision, fnv(channel_bytes(topic, channel)) as nat),
            ),
        ),
{
    reveal(JsonView::with);
    reveal_strlit("topic");
    reveal_strlit("channel");
    reveal_strlit("expected_revision");
    reveal_strlit("operation_id");
    assert("topic"@.len() == 5 && "channel"@.len() == 7 && "expected_revision"@.len() == 17
        && "operation_id"@.len() == 12);
}

/// A removal is told as done exactly where the broker says so, and a caller can tell that a
/// channel is in use.
pub proof fn law_removals_are_told_as_they_went(status: u16, detail: Option<String>, r: TextReply)
    requires
        call_ensures(removal_outcome, (status, detail), r),
    ensures
        r.status == 200 <==> 200 <= status < 300,
        r.status == 409 <==> status == 409,
        !(200 <= status < 300) ==> r.status == 409 || r.status == 502 || r.status == 503,
        !(200 <= status < 300) && detail is Some ==> r.body@ == detail->0@,
{
}

/// What goes wrong at a broker is not told as the fault of the caller, and the other way round.
pub proof fn law_troubles_have_their_status(trouble: Trouble)
    ensures
        told(trouble).status == 400 <==> trouble is NoChannel,
        told(trouble).status == 503 <==> !(trouble is NoChannel),
{
}

/// Statistics are asked for as JSON, of the path that was asked for, with every other parameter
/// that was given.
pub proof fn law_statistics_are_asked_for_as_json(target: Seq<char>, p: Seq<char>)
    ensures
        text::starts(json_target(target), target_parts(target).0 + "?"@),
        text::ends(json_target(target), "format=json"@),
        parameters(target_parts(target).1).contains(p) <==> text_list::parts(
            target_parts(target).1,
            '&',
        ).contains(p) && stays(p),
{
    let (path, query) = target_parts(target);
    let all = parameters(query).push("format=json"@);
    let t = json_target(target);
    let head = path + "?"@;
    let rest = text_list::joined(all, "&"@);
    assert(t =~= head + rest);
    assert(t.take(head.len() as int) =~= head);
    lemma_joined_ends(parameters(query), "format=json"@, "&"@);
    assert(t.skip(t.len() - "format=json"@.len()) =~= rest.skip(
        rest.len() - "format=json"@.len(),
    ));
    lemma_filter_contains(text_list::parts(query, '&'), p);
}

proof fn lemma_filter_contains(s: Seq<Seq<char>>, p: Seq<char>)
    ensures
        s.filter(|p: Seq<char>| stays(p)).contains(p) <==> s.contains(p) && stays(p),
    decreases s.len(),
{
    reveal(Seq::filter);
    let all = s.filter(|p: Seq<char>| stays(p));
    if s.len() > 0 {
        let d = s.drop_last();
        let before = d.filter(|p: Seq<char>| stays(p));
        lemma_filter_contains(d, p);
        if d.contains(p) {
            let w = d.index_of(p);
            assert(s[w] == p);
        }
        if before.contains(p) {
            let w = before.index_of(p);
            assert(all[w] == p);
        }
        if all.contains(p) {
            let w = all.index_of(p);
            if w < before.len() {
                assert(before[w] == p);
            } else {
                assert(s[s.len() - 1] == p);
            }
        }
        if s.contains(p) && stays(p) {
            let w = s.index_of(p);
            if w < d.len() {
                assert(d[w] == p);
            } else {
                assert(all[all.len() - 1] == p);
            }
        }
    }
}

proof fn lemma_joined_ends(s: Seq<Seq<char>>, last: Seq<char>, separator: Seq<char>)
    ensures
        text::ends(text_list::joined(s.push(last), separator), last),
{
    let all = s.push(last);
    assert(all.drop_last() =~= s);
    assert(all.last() == last);
    let j = text_list::joined(all, separator);
    assert(j.skip(j.len() - last.len()) =~= last);
}

/// A broker that refuses the gateway is a bad gateway to the caller, and every
/// other failure but a conflict is an unavailable one.
pub proof fn law_failed_removals_are_told_by_their_kind(
    status: u16,
    detail: Option<String>,
    r: TextReply,
)
    requires
        call_ensures(removal_outcome, (status, detail), r),
    ensures
        r.status == 502 <==> status == 401 || status == 403,
        r.status == 503 <==> !(200 <= status < 300) && status != 401 && status != 403 && status
            != 409,
        200 <= status < 300 ==> r.body@ == "OK"@,
        !(200 <= status < 300) && detail is None ==> r.body@ == "broker cleanup failed"@,
{
}

/// Each trouble is told in its words.
pub proof fn law_troubles_are_told_in_their_words(trouble: Trouble, r: TextReply)
    requires
        call_ensures(trouble_reply, (trouble,), r),
    ensures
        trouble is NoChannel <==> r.body@ == "E_BAD_REQUEST topic and channel are required"@,
        trouble is StatsUnavailable <==> r.body@ == "broker stats are unavailable"@,
        trouble is StatsInvalid <==> r.body@ == "broker stats are invalid"@,
        trouble is StatsTooLarge <==> r.body@ == "broker stats aggregate is too large"@,
        trouble is RegistryUnavailable <==> r.body@ == "broker registry is unavailable"@,
        trouble is RegistryInvalid <==> r.body@ == "broker registry is invalid"@,
        trouble is CleanupUnavailable <==> r.body@ == "broker cleanup is unavailable"@,
{
    reveal_strlit("E_BAD_REQUEST topic and channel are required");
    reveal_strlit("broker stats are unavailable");
    reveal_strlit("broker stats are invalid");
    reveal_strlit("broker stats aggregate is too large");
    reveal_strlit("broker registry is unavailable");
    reveal_strlit("broker registry is invalid");
    reveal_strlit("broker cleanup is unavailable");
    assert("E_BAD_REQUEST topic and channel are required"@.len() == 44);
    assert("broker stats are unavailable"@.len() == 28);
    assert("broker stats are invalid"@.len() == 24);
    assert("broker stats aggregate is too large"@.len() == 35);
    assert("broker registry is unavailable"@.len() == 30);
    assert("broker registry is invalid"@.len() == 26);
    assert("broker cleanup is unavailable"@.len() == 29);
}

} // verus!
