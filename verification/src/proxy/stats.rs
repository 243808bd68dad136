//! The statistics of several brokers as those of one.
use crate::discovery::model::VERSION;
use crate::json::JsonView;
use crate::ordered::{OrderedKey, SortedMap};
use crate::{json, ordered, text};
use serde_json::Value;
use vstd::prelude::*;
use vstd::string::*;

verus! {

/// The largest statistics of one broker, in bytes.
pub const MAX_STATS_BYTES: usize = 16_777_216;

/// The largest statistics of all brokers, in bytes.
pub const MAX_STATS_AGGREGATE_BYTES: usize = 33_554_432;

/// How much memory is set aside to gather statistics, in bytes.
pub const STATS_WORKING_SET_BYTES: usize = 100_663_296;

/// The statistics of a channel.
#[derive(Debug)]
pub struct ChannelStats {
    pub channel_name: String,
    pub name: String,
    pub depth: u64,
    pub memory_depth: u64,
    pub backend_depth: u64,
    pub message_count: u64,
    pub in_flight_count: u64,
    pub deferred_count: u64,
    pub requeue_count: u64,
    pub timeout_count: u64,
    pub client_count: usize,
    pub clients: Vec<Value>,
    pub paused: bool,
}

/// The statistics of a topic.
#[derive(Debug)]
pub struct TopicStats {
    pub topic_name: String,
    pub name: String,
    pub depth: u64,
    pub memory_depth: u64,
    pub backend_depth: u64,
    pub message_count: u64,
    pub paused: bool,
    pub channels: Vec<ChannelStats>,
}

/// The statistics of a broker.
#[derive(Debug)]
pub struct StatsResponse {
    pub version: String,
    pub health: String,
    pub start_time: i64,
    pub topics: Vec<TopicStats>,
}

/// `ChannelStats` with its names as texts.
pub struct ChannelStatsView {
    pub channel_name: Seq<char>,
    pub name: Seq<char>,
    pub depth: u64,
    pub memory_depth: u64,
    pub backend_depth: u64,
    pub message_count: u64,
    pub in_flight_count: u64,
    pub deferred_count: u64,
    pub requeue_count: u64,
    pub timeout_count: u64,
    pub client_count: usize,
    pub clients: Seq<JsonView>,
    pub paused: bool,
}

/// `TopicStats` with its names as texts.
pub struct TopicStatsView {
    pub topic_name: Seq<char>,
    pub name: Seq<char>,
    pub depth: u64,
    pub memory_depth: u64,
    pub backend_depth: u64,
    pub message_count: u64,
    pub paused: bool,
    pub channels: Seq<ChannelStatsView>,
}

impl View for ChannelStats {
    type V = ChannelStatsView;

    open spec fn view(&self) -> ChannelStatsView {
        ChannelStatsView {
            channel_name: self.channel_name@,
            name: self.name@,
            depth: self.depth,
            memory_depth: self.memory_depth,
            backend_depth: self.backend_depth,
            message_count: self.message_count,
            in_flight_count: self.in_flight_count,
            deferred_count: self.deferred_count,
            requeue_count: self.requeue_count,
            timeout_count: self.timeout_count,
            client_count: self.client_count,
            clients: json::all_held(self.clients@),
            paused: self.paused,
        }
    }
}

impl View for TopicStats {
    type V = TopicStatsView;

    open spec fn view(&self) -> TopicStatsView {
        TopicStatsView {
            topic_name: self.topic_name@,
            name: self.name@,
            depth: self.depth,
            memory_depth: self.memory_depth,
            backend_depth: self.backend_depth,
            message_count: self.message_count,
            paused: self.paused,
            channels: views(self.channels@),
        }
    }
}

impl Default for ChannelStats {
    fn default() -> (r: Self)
        ensures
            r@ == (ChannelStatsView {
                channel_name: Seq::empty(),
                name: Seq::empty(),
                depth: 0,
                memory_depth: 0,
                backend_depth: 0,
                message_count: 0,
                in_flight_count: 0,
                deferred_count: 0,
                requeue_count: 0,
                timeout_count: 0,
                client_count: 0,
                clients: Seq::empty(),
                paused: false,
            }),
    {
        let r = ChannelStats {
            channel_name: String::new(),
            name: String::new(),
            depth: 0,
            memory_depth: 0,
            backend_depth: 0,
            message_count: 0,
            in_flight_count: 0,
            deferred_count: 0,
            requeue_count: 0,
            timeout_count: 0,
            client_count: 0,
            clients: Vec::new(),
            paused: false,
        };
        assert(r@.channel_name =~= Seq::<char>::empty());
        assert(r@.name =~= Seq::<char>::empty());
        assert(r@.clients =~= Seq::<JsonView>::empty());
        r
    }
}

impl Default for TopicStats {
    fn default() -> (r: Self)
        ensures
            r@ == (TopicStatsView {
                topic_name: Seq::empty(),
                name: Seq::empty(),
                depth: 0,
                memory_depth: 0,
                backend_depth: 0,
                message_count: 0,
                paused: false,
                channels: Seq::empty(),
            }),
    {
        let r = TopicStats {
            topic_name: String::new(),
            name: String::new(),
            depth: 0,
            memory_depth: 0,
            backend_depth: 0,
            message_count: 0,
            paused: false,
            channels: Vec::new(),
        };
        assert(r@.topic_name =~= Seq::<char>::empty());
        assert(r@.name =~= Seq::<char>::empty());
        assert(r@.channels =~= Seq::<ChannelStatsView>::empty());
        r
    }
}

/// What the elements of a sequence stand for.
pub open spec fn views<T: View>(s: Seq<T>) -> Seq<T::V> {
    s.map_values(|x: T| x@)
}

/// What the values of a map stand for.
pub open spec fn viewed<T: View>(m: Map<Seq<char>, T>) -> Map<Seq<char>, T::V> {
    Map::new(|k: Seq<char>| m.contains_key(k), |k: Seq<char>| m[k]@)
}

/// Something with a name that can be put together with another of its name.
pub trait Combined: View + Sized {
    /// The name.
    spec fn name_of(v: Self::V) -> Seq<char>;

    /// Two put together.
    spec fn both(a: Self::V, b: Self::V) -> Self::V;

    /// What is put together keeps the name of the first.
    proof fn name_stays(a: Self::V, b: Self::V)
        ensures
            Self::name_of(Self::both(a, b)) == Self::name_of(a),
    ;

    /// The name.
    fn key_name(&self) -> (r: String)
        ensures
            r@ == Self::name_of(self@),
    ;

    /// Puts two together.
    fn combine(self, other: Self) -> (r: Self)
        ensures
            r@ == Self::both(self@, other@),
    ;
}

/// The last one of each name.
pub open spec fn collected<T: Combined>(s: Seq<T::V>) -> Map<Seq<char>, T::V>
    decreases s.len(),
{
    if s.len() == 0 {
        Map::empty()
    } else {
        collected::<T>(s.drop_last()).insert(T::name_of(s.last()), s.last())
    }
}

/// One more, put together with the one of its name.
pub open spec fn with_one<T: Combined>(m: Map<Seq<char>, T::V>, x: T::V) -> Map<Seq<char>, T::V> {
    let k = T::name_of(x);
    m.insert(
        k,
        if m.contains_key(k) {
            T::both(m[k], x)
        } else {
            x
        },
    )
}

/// Some more, each put together with the one of its name.
pub open spec fn absorbed<T: Combined>(m: Map<Seq<char>, T::V>, s: Seq<T::V>) -> Map<
    Seq<char>,
    T::V,
>
    decreases s.len(),
{
    if s.len() == 0 {
        m
    } else {
        with_one::<T>(absorbed::<T>(m, s.drop_last()), s.last())
    }
}

/// Two lists as one, in the order of the names.
pub open spec fn merge<T: Combined>(a: Seq<T::V>, b: Seq<T::V>) -> Seq<T::V> {
    ordered::in_order::<String, T::V>(absorbed::<T>(collected::<T>(a), b))
}

proof fn lemma_in_order_viewed<T: View>(m: Map<Seq<char>, T>, l: Seq<Seq<char>>)
    requires
        ordered::is_listing::<String>(m.dom(), l),
    ensures
        views(ordered::in_order::<String, T>(m)) == ordered::in_order::<String, T::V>(viewed(m)),
{
    assert(viewed(m).dom() =~= m.dom());
    ordered::lemma_listed::<String>(m.dom(), l);
    assert forall|i: int| 0 <= i < l.len() implies m.contains_key(#[trigger] l[i]) by {
        assert(l.contains(l[i]));
    }
    assert(views(ordered::in_order::<String, T>(m)) =~= ordered::in_order::<String, T::V>(
        viewed(m),
    ));
}

/// Puts two lists together: what has a name in both is combined, and the result stands in
/// the order of the names.
pub fn merged<T: Combined>(output: Vec<T>, incoming: Vec<T>) -> (r: Vec<T>)
    ensures
        views(r@) == merge::<T>(views(output@), views(incoming@)),
{
    let ghost a = views(output@);
    let ghost b = views(incoming@);
    let mut map: SortedMap<String, T> = SortedMap::new();
    proof {
        assert(viewed(map@) =~= Map::empty());
    }
    for x in it: output.into_iter()
        invariant
            map.wf(),
            views(it.seq()) == a,
            viewed(map@) == collected::<T>(a.take(it.index() as int)),
    {
        let ghost was = map@;
        let ghost n = it.index() as int;
        let ghost xv = x@;
        let key = x.key_name();
        map.insert(key, x);
        proof {
            assert(a.take(n + 1).drop_last() =~= a.take(n));
            assert(a.take(n + 1).last() == xv);
            assert(viewed(map@) =~= viewed(was).insert(T::name_of(xv), xv));
        }
    }
    proof {
        assert(a.take(a.len() as int) =~= a);
        assert(b.take(0) =~= Seq::empty());
    }
    for x in it: incoming.into_iter()
        invariant
            map.wf(),
            views(it.seq()) == b,
            viewed(map@) == absorbed::<T>(collected::<T>(a), b.take(it.index() as int)),
    {
        let ghost was = map@;
        let ghost n = it.index() as int;
        let ghost xv = x@;
        let key = x.key_name();
        let both = match map.remove(&key) {
            Some(existing) => existing.combine(x),
            None => x,
        };
        map.insert(key, both);
        proof {
            assert(b.take(n + 1).drop_last() =~= b.take(n));
            assert(b.take(n + 1).last() == xv);
            assert(viewed(map@) =~= with_one::<T>(viewed(was), xv));
        }
    }
    proof {
        assert(b.take(b.len() as int) =~= b);
        lemma_in_order_viewed(map@, map.order());
    }
    map.into_values()
}

/// The sum of two numbers, or the largest one.
pub open spec fn total(a: u64, b: u64) -> u64 {
    if a + b > u64::MAX {
        u64::MAX
    } else {
        (a + b) as u64
    }
}

/// The statistics of one channel on two brokers.
pub open spec fn channel_both(a: ChannelStatsView, b: ChannelStatsView) -> ChannelStatsView {
    ChannelStatsView {
        channel_name: a.channel_name,
        name: a.name,
        depth: total(a.depth, b.depth),
        memory_depth: total(a.memory_depth, b.memory_depth),
        backend_depth: total(a.backend_depth, b.backend_depth),
        message_count: total(a.message_count, b.message_count),
        in_flight_count: total(a.in_flight_count, b.in_flight_count),
        deferred_count: total(a.deferred_count, b.deferred_count),
        requeue_count: total(a.requeue_count, b.requeue_count),
        timeout_count: total(a.timeout_count, b.timeout_count),
        client_count: if a.client_count + b.client_count > usize::MAX {
            usize::MAX
        } else {
            (a.client_count + b.client_count) as usize
        },
        clients: a.clients + b.clients,
        paused: a.paused || b.paused,
    }
}

/// Adds the statistics of a channel to those of the same channel.
pub fn merge_channel(existing: &mut ChannelStats, incoming: ChannelStats)
    ensures
        final(existing)@ == channel_both(old(existing)@, incoming@),
{
    let ghost a = existing.clients@;
    let ghost b = incoming.clients@;
    existing.depth = existing.depth.saturating_add(incoming.depth);
    existing.memory_depth = existing.memory_depth.saturating_add(incoming.memory_depth);
    existing.backend_depth = existing.backend_depth.saturating_add(incoming.backend_depth);
    existing.message_count = existing.message_count.saturating_add(incoming.message_count);
    existing.in_flight_count = existing.in_flight_count.saturating_add(incoming.in_flight_count);
    existing.deferred_count = existing.deferred_count.saturating_add(incoming.deferred_count);
    existing.requeue_count = existing.requeue_count.saturating_add(incoming.requeue_count);
    existing.timeout_count = existing.timeout_count.saturating_add(incoming.timeout_count);
    existing.client_count = existing.client_count.saturating_add(incoming.client_count);
    let mut clients = incoming.clients;
    existing.clients.append(&mut clients);
    existing.paused = existing.paused || incoming.paused;
    assert(json::all_held(a + b) =~= json::all_held(a) + json::all_held(b));
}

impl Combined for ChannelStats {
    open spec fn name_of(v: ChannelStatsView) -> Seq<char> {
        v.channel_name
    }

    open spec fn both(a: ChannelStatsView, b: ChannelStatsView) -> ChannelStatsView {
        channel_both(a, b)
    }

    proof fn name_stays(a: ChannelStatsView, b: ChannelStatsView) {
    }

    fn key_name(&self) -> (r: String) {
        self.channel_name.clone()
    }

    fn combine(self, other: ChannelStats) -> (r: ChannelStats) {
        let mut r = self;
        merge_channel(&mut r, other);
        r
    }
}

/// The statistics of one topic on two brokers.
pub open spec fn topic_both(a: TopicStatsView, b: TopicStatsView) -> TopicStatsView {
    TopicStatsView {
        topic_name: a.topic_name,
        name: a.name,
        depth: total(a.depth, b.depth),
        memory_depth: total(a.memory_depth, b.memory_depth),
        backend_depth: total(a.backend_depth, b.backend_depth),
        message_count: total(a.message_count, b.message_count),
        paused: a.paused || b.paused,
        channels: merge::<ChannelStats>(a.channels, b.channels),
    }
}

/// Adds the statistics of a topic to those of the same topic.
pub fn merge_topic(existing: TopicStats, incoming: TopicStats) -> (r: TopicStats)
    ensures
        r@ == topic_both(existing@, incoming@),
{
    TopicStats {
        topic_name: existing.topic_name,
        name: existing.name,
        depth: existing.depth.saturating_add(incoming.depth),
        memory_depth: existing.memory_depth.saturating_add(incoming.memory_depth),
        backend_depth: existing.backend_depth.saturating_add(incoming.backend_depth),
        message_count: existing.message_count.saturating_add(incoming.message_count),
        paused: existing.paused || incoming.paused,
        channels: merged(existing.channels, incoming.channels),
    }
}

impl Combined for TopicStats {
    open spec fn name_of(v: TopicStatsView) -> Seq<char> {
        v.topic_name
    }

    open spec fn both(a: TopicStatsView, b: TopicStatsView) -> TopicStatsView {
        topic_both(a, b)
    }

    proof fn name_stays(a: TopicStatsView, b: TopicStatsView) {
    }

    fn key_name(&self) -> (r: String) {
        self.topic_name.clone()
    }

    fn combine(self, other: TopicStats) -> (r: TopicStats) {
        merge_topic(self, other)
    }
}

/// The name that counts: the first one, or the second where the first is empty.
pub open spec fn standard_name(first: Seq<char>, second: Seq<char>) -> Seq<char> {
    if first.len() == 0 {
        second
    } else {
        first
    }
}

/// A channel with both its names.
pub open spec fn normal_channel(c: ChannelStatsView) -> ChannelStatsView {
    let n = standard_name(c.channel_name, c.name);
    ChannelStatsView { channel_name: n, name: n, ..c }
}

/// A topic with both its names, and its channels with both theirs.
pub open spec fn normal_topic(t: TopicStatsView) -> TopicStatsView {
    let n = standard_name(t.topic_name, t.name);
    TopicStatsView {
        topic_name: n,
        name: n,
        channels: t.channels.map_values(|c: ChannelStatsView| normal_channel(c)),
        ..t
    }
}

fn chosen_name(first: String, second: String) -> (r: String)
    ensures
        r@ == standard_name(first@, second@),
{
    proof {
        reveal_strlit("");
    }
    if text::str_eq(first.as_str(), "") {
        second
    } else {
        assert(first@.len() == 0 ==> first@ =~= ""@);
        first
    }
}

/// Gives a topic and its channels both their names.
pub fn normalize_topic(topic: TopicStats) -> (r: TopicStats)
    ensures
        r@ == normal_topic(topic@),
{
    let name = chosen_name(topic.topic_name, topic.name);
    let ghost before = views(topic.channels@);
    let mut channels: Vec<ChannelStats> = Vec::new();
    for c in it: topic.channels.into_iter()
        invariant
            views(it.seq()) == before,
            views(channels@) == before.take(it.index() as int).map_values(
                |c: ChannelStatsView| normal_channel(c),
            ),
    {
        let ghost n = it.index() as int;
        let ghost cv = c@;
        let ghost had = channels@;
        let mut c = c;
        let name = chosen_name(c.channel_name, c.name);
        c.channel_name = name.clone();
        c.name = name;
        proof {
            assert(c@ == normal_channel(cv));
        }
        let ghost named = c;
        channels.push(c);
        proof {
            let next = before.take(n + 1).map_values(|c: ChannelStatsView| normal_channel(c));
            assert(before[n] == cv);
            assert(views(had).len() == had.len());
            assert(views(had).len() == n);
            assert(channels@ == had.push(named));
            assert forall|i: int| 0 <= i < n + 1 implies views(channels@)[i] == next[i] by {
                if i < n {
                    assert(views(had)[i] == channels@[i]@);
                }
            }
            assert(views(channels@) =~= next);
        }
    }
    assert(before.take(before.len() as int) =~= before);
    TopicStats {
        topic_name: name.clone(),
        name,
        depth: topic.depth,
        memory_depth: topic.memory_depth,
        backend_depth: topic.backend_depth,
        message_count: topic.message_count,
        paused: topic.paused,
        channels,
    }
}

/// Topics with all their names.
pub open spec fn normal_topics(s: Seq<TopicStatsView>) -> Seq<TopicStatsView> {
    s.map_values(|t: TopicStatsView| normal_topic(t))
}

/// Adds the topics of one more broker.
pub fn merge_topics(output: Vec<TopicStats>, topics: Vec<TopicStats>) -> (r: Vec<TopicStats>)
    ensures
        views(r@) == merge::<TopicStats>(views(output@), normal_topics(views(topics@))),
{
    let ghost before = views(topics@);
    let mut named: Vec<TopicStats> = Vec::new();
    for t in it: topics.into_iter()
        invariant
            views(it.seq()) == before,
            views(named@) == normal_topics(before.take(it.index() as int)),
    {
        let ghost n = it.index() as int;
        let ghost tv = t@;
        let ghost had = named@;
        let t = normalize_topic(t);
        let ghost normal = t;
        named.push(t);
        proof {
            let next = normal_topics(before.take(n + 1));
            assert(before[n] == tv);
            assert(views(had).len() == had.len());
            assert(views(had).len() == n);
            assert(named@ == had.push(normal));
            assert forall|i: int| 0 <= i < n + 1 implies views(named@)[i] == next[i] by {
                if i < n {
                    assert(views(had)[i] == named@[i]@);
                }
            }
            assert(views(named@) =~= next);
        }
    }
    assert(before.take(before.len() as int) =~= before);
    merged(output, named)
}

/// The statistics that are gathered from several brokers.
#[derive(Debug)]
pub struct StatsAggregate {
    pub start_time: i64,
    pub topics: Vec<TopicStats>,
    pub bytes: usize,
}

/// The earlier of two starts, where the second is known.
pub open spec fn earlier_start(a: i64, b: i64) -> i64 {
    if b > 0 && b < a {
        b
    } else {
        a
    }
}

impl StatsAggregate {
    /// Nothing gathered.
    pub fn new() -> (r: Self)
        ensures
            r.start_time == i64::MAX,
            r.topics@.len() == 0,
            r.bytes == 0,
    {
        StatsAggregate { start_time: i64::MAX, topics: Vec::new(), bytes: 0 }
    }

    /// Adds the statistics of a broker, which took so many bytes; nothing where all
    /// together take too many.
    pub fn with(self, stats: StatsResponse, response_bytes: usize) -> (r: Option<Self>)
        ensures
            r is Some <==> self.bytes + response_bytes <= MAX_STATS_AGGREGATE_BYTES,
            r matches Some(a) ==> {
                &&& a.bytes == self.bytes + response_bytes
                &&& a.start_time == earlier_start(self.start_time, stats.start_time)
                &&& views(a.topics@) == merge::<TopicStats>(
                    views(self.topics@),
                    normal_topics(views(stats.topics@)),
                )
            },
    {
        let bytes: usize = match self.bytes.checked_add(response_bytes) {
            Some(n) => if n <= MAX_STATS_AGGREGATE_BYTES {
                n
            } else {
                return None;
            },
            None => {
                return None;
            },
        };
        let start_time: i64 = if stats.start_time > 0 && stats.start_time < self.start_time {
            stats.start_time
        } else {
            self.start_time
        };
        Some(StatsAggregate { start_time, topics: merge_topics(self.topics, stats.topics), bytes })
    }

    /// The statistics of all brokers; without a known start they began at `now`, in seconds.
    pub fn done(self, now: i64) -> (r: StatsResponse)
        ensures
            r.version@ == VERSION@,
            r.health@ == "OK"@,
            r.start_time == if self.start_time == i64::MAX {
                now
            } else {
                self.start_time
            },
            r.topics == self.topics,
    {
        StatsResponse {
            version: VERSION.to_owned(),
            health: "OK".to_owned(),
            start_time: if self.start_time == i64::MAX {
                now
            } else {
                self.start_time
            },
            topics: self.topics,
        }
    }
}

/// Whether something in a list has this name.
pub open spec fn named<T: Combined>(s: Seq<T::V>, name: Seq<char>) -> bool {
    exists|i: int| 0 <= i < s.len() && T::name_of(#[trigger] s[i]) == name
}

/// Whether everything in a map stands under its name.
pub open spec fn under_names<T: Combined>(m: Map<Seq<char>, T::V>) -> bool {
    forall|k: Seq<char>| #[trigger] m.contains_key(k) ==> T::name_of(m[k]) == k
}

proof fn lemma_collected<T: Combined>(s: Seq<T::V>)
    ensures
        collected::<T>(s).dom().finite(),
        under_names::<T>(collected::<T>(s)),
        forall|k: Seq<char>| #[trigger]
            collected::<T>(s).contains_key(k) <==> named::<T>(s, k),
    decreases s.len(),
{
    if s.len() > 0 {
        let rest = s.drop_last();
        lemma_collected::<T>(rest);
        let m = collected::<T>(rest);
        let all = collected::<T>(s);
        assert(all == m.insert(T::name_of(s.last()), s.last()));
        assert forall|k: Seq<char>| #[trigger] all.contains_key(k) implies T::name_of(all[k])
            == k by {
            assert(k == T::name_of(s.last()) || m.contains_key(k));
        }
        assert forall|k: Seq<char>| #[trigger] all.contains_key(k) <==> named::<T>(s, k) by {
            assert(m.contains_key(k) <==> named::<T>(rest, k));
            lemma_named_push::<T>(s, k);
        }
    }
}

proof fn lemma_named_push<T: Combined>(s: Seq<T::V>, k: Seq<char>)
    requires
        s.len() > 0,
    ensures
        named::<T>(s, k) <==> named::<T>(s.drop_last(), k) || T::name_of(s.last()) == k,
{
    let rest = s.drop_last();
    if named::<T>(rest, k) {
        let i = choose|i: int| 0 <= i < rest.len() && T::name_of(#[trigger] rest[i]) == k;
        assert(T::name_of(s[i]) == k);
    }
    assert(s[s.len() - 1] == s.last());
    if named::<T>(s, k) {
        let i = choose|i: int| 0 <= i < s.len() && T::name_of(#[trigger] s[i]) == k;
        if i < rest.len() {
            assert(T::name_of(rest[i]) == k);
        }
    }
}

proof fn lemma_absorbed<T: Combined>(m: Map<Seq<char>, T::V>, s: Seq<T::V>)
    requires
        under_names::<T>(m),
        m.dom().finite(),
    ensures
        absorbed::<T>(m, s).dom().finite(),
        under_names::<T>(absorbed::<T>(m, s)),
        forall|k: Seq<char>| #[trigger]
            absorbed::<T>(m, s).contains_key(k) <==> m.contains_key(k) || named::<T>(s, k),
    decreases s.len(),
{
    if s.len() > 0 {
        let rest = s.drop_last();
        lemma_absorbed::<T>(m, rest);
        let r = absorbed::<T>(m, rest);
        let all = absorbed::<T>(m, s);
        assert(all == with_one::<T>(r, s.last()));
        assert forall|k: Seq<char>| #[trigger] all.contains_key(k) implies T::name_of(all[k])
            == k by {
            assert(k == T::name_of(s.last()) || r.contains_key(k));
            if r.contains_key(k) {
                T::name_stays(r[k], s.last());
            }
        }
        assert forall|k: Seq<char>| #[trigger] all.contains_key(k) <==> m.contains_key(k)
            || named::<T>(s, k) by {
            assert(r.contains_key(k) <==> m.contains_key(k) || named::<T>(rest, k));
            lemma_named_push::<T>(s, k);
        }
    }
}

/// The merge of two lists has every name of one of them and no other, each once and in
/// order.
pub proof fn law_merge_keeps_every_name<T: Combined>(a: Seq<T::V>, b: Seq<T::V>)
    ensures
        forall|k: Seq<char>| #[trigger]
            named::<T>(merge::<T>(a, b), k) <==> named::<T>(a, k) || named::<T>(b, k),
        forall|i: int, j: int|
            0 <= i < j < merge::<T>(a, b).len() ==> text::text_lt(
                T::name_of(#[trigger] merge::<T>(a, b)[i]),
                T::name_of(#[trigger] merge::<T>(a, b)[j]),
            ),
{
    let m = absorbed::<T>(collected::<T>(a), b);
    lemma_collected::<T>(a);
    lemma_absorbed::<T>(collected::<T>(a), b);
    ordered::lemma_has_listing::<String>(m.dom());
    let listing = ordered::listed::<String>(m.dom());
    let r = merge::<T>(a, b);
    assert(r.len() == listing.len());
    assert forall|i: int| 0 <= i < listing.len() implies T::name_of(#[trigger] r[i])
        == listing[i] by {
        assert(listing.contains(listing[i]));
        assert(m.contains_key(listing[i]));
    }
    assert forall|k: Seq<char>| #[trigger] named::<T>(r, k) <==> named::<T>(a, k) || named::<T>(
        b,
        k,
    ) by {
        assert(m.dom().contains(k) <==> m.contains_key(k));
        assert(listing.contains(k) <==> m.dom().contains(k));
        assert(collected::<T>(a).contains_key(k) <==> named::<T>(a, k));
        if listing.contains(k) {
            let i = listing.index_of(k);
            assert(T::name_of(r[i]) == k);
        }
        if named::<T>(r, k) {
            let i = choose|i: int| 0 <= i < r.len() && T::name_of(#[trigger] r[i]) == k;
            assert(listing[i] == k);
            assert(listing.contains(k));
        }
    }
    assert forall|i: int, j: int| 0 <= i < j < r.len() implies text::text_lt(
        T::name_of(#[trigger] r[i]),
        T::name_of(#[trigger] r[j]),
    ) by {
        assert(String::before(listing[i], listing[j]));
    }
}

/// After it was normalized, a topic has one name under both headings, and so has each of
/// its channels.
pub proof fn law_normal_topics_have_one_name(t: TopicStatsView, i: int)
    ensures
        normal_topic(t).topic_name == normal_topic(t).name,
        0 <= i < t.channels.len() ==> normal_topic(t).channels[i].channel_name == normal_topic(
            t,
        ).channels[i].name,
        normal_topic(normal_topic(t)) == normal_topic(t),
{
    let n = normal_topic(t);
    assert(normal_topic(n).channels =~= n.channels);
}

// What a merge says of each name.

/// Whether no two in a list have one name.
pub open spec fn names_differ<T: Combined>(s: Seq<T::V>) -> bool {
    forall|i: int, j: int|
        0 <= i < j < s.len() ==> T::name_of(#[trigger] s[i]) != T::name_of(#[trigger] s[j])
}

proof fn lemma_collected_value<T: Combined>(s: Seq<T::V>, i: int)
    requires
        names_differ::<T>(s),
        0 <= i < s.len(),
    ensures
        collected::<T>(s).contains_key(T::name_of(s[i])),
        collected::<T>(s)[T::name_of(s[i])] == s[i],
    decreases s.len(),
{
    let d = s.drop_last();
    if i < s.len() - 1 {
        assert forall|x: int, y: int| 0 <= x < y < d.len() implies T::name_of(#[trigger] d[x])
            != T::name_of(#[trigger] d[y]) by {
            assert(T::name_of(s[x]) != T::name_of(s[y]));
        }
        lemma_collected_value::<T>(d, i);
        assert(d[i] == s[i]);
        assert(T::name_of(s[i]) != T::name_of(s[s.len() - 1]));
    }
}

proof fn lemma_absorbed_other<T: Combined>(m: Map<Seq<char>, T::V>, s: Seq<T::V>, k: Seq<char>)
    requires
        !named::<T>(s, k),
    ensures
        absorbed::<T>(m, s).contains_key(k) == m.contains_key(k),
        m.contains_key(k) ==> absorbed::<T>(m, s)[k] == m[k],
    decreases s.len(),
{
    if s.len() > 0 {
        lemma_named_push::<T>(s, k);
        lemma_absorbed_other::<T>(m, s.drop_last(), k);
    }
}

proof fn lemma_absorbed_value<T: Combined>(m: Map<Seq<char>, T::V>, s: Seq<T::V>, j: int)
    requires
        names_differ::<T>(s),
        0 <= j < s.len(),
    ensures
        absorbed::<T>(m, s).contains_key(T::name_of(s[j])),
        absorbed::<T>(m, s)[T::name_of(s[j])] == if m.contains_key(T::name_of(s[j])) {
            T::both(m[T::name_of(s[j])], s[j])
        } else {
            s[j]
        },
    decreases s.len(),
{
    let d = s.drop_last();
    let k = T::name_of(s[j]);
    assert forall|x: int, y: int| 0 <= x < y < d.len() implies T::name_of(#[trigger] d[x])
        != T::name_of(#[trigger] d[y]) by {
        assert(T::name_of(s[x]) != T::name_of(s[y]));
    }
    if j < s.len() - 1 {
        lemma_absorbed_value::<T>(m, d, j);
        assert(d[j] == s[j]);
        assert(T::name_of(s[j]) != T::name_of(s[s.len() - 1]));
    } else {
        if named::<T>(d, k) {
            let i = choose|i: int| 0 <= i < d.len() && T::name_of(#[trigger] d[i]) == k;
            assert(T::name_of(s[i]) != T::name_of(s[j]));
        }
        lemma_absorbed_other::<T>(m, d, k);
    }
}

proof fn lemma_in_merge<T: Combined>(a: Seq<T::V>, b: Seq<T::V>, k: Seq<char>)
    requires
        absorbed::<T>(collected::<T>(a), b).contains_key(k),
    ensures
        merge::<T>(a, b).contains(absorbed::<T>(collected::<T>(a), b)[k]),
{
    let m = absorbed::<T>(collected::<T>(a), b);
    lemma_collected::<T>(a);
    lemma_absorbed::<T>(collected::<T>(a), b);
    ordered::lemma_has_listing::<String>(m.dom());
    let listing = ordered::listed::<String>(m.dom());
    assert(m.dom().contains(k));
    assert(listing.contains(k));
    let i = listing.index_of(k);
    assert(merge::<T>(a, b)[i] == m[k]);
}

/// What only one of two lists has a name for stays as it is, and what both have one for is put
/// together.
pub proof fn law_merge_goes_name_by_name<T: Combined>(a: Seq<T::V>, b: Seq<T::V>)
    requires
        names_differ::<T>(a),
        names_differ::<T>(b),
    ensures
        forall|i: int|
            0 <= i < a.len() && !named::<T>(b, T::name_of(#[trigger] a[i])) ==> merge::<T>(
                a,
                b,
            ).contains(a[i]),
        forall|j: int|
            0 <= j < b.len() && !named::<T>(a, T::name_of(#[trigger] b[j])) ==> merge::<T>(
                a,
                b,
            ).contains(b[j]),
        forall|i: int, j: int|
            0 <= i < a.len() && 0 <= j < b.len() && T::name_of(#[trigger] a[i]) == T::name_of(
                #[trigger] b[j],
            ) ==> merge::<T>(a, b).contains(T::both(a[i], b[j])),
{
    let c = collected::<T>(a);
    lemma_collected::<T>(a);
    assert forall|i: int| 0 <= i < a.len() && !named::<T>(b, T::name_of(#[trigger] a[i])) implies
    merge::<T>(a, b).contains(a[i]) by {
        lemma_collected_value::<T>(a, i);
        lemma_absorbed_other::<T>(c, b, T::name_of(a[i]));
        lemma_in_merge::<T>(a, b, T::name_of(a[i]));
    }
    assert forall|j: int| 0 <= j < b.len() && !named::<T>(a, T::name_of(#[trigger] b[j])) implies
    merge::<T>(a, b).contains(b[j]) by {
        lemma_absorbed_value::<T>(c, b, j);
        lemma_in_merge::<T>(a, b, T::name_of(b[j]));
    }
    assert forall|i: int, j: int|
        0 <= i < a.len() && 0 <= j < b.len() && T::name_of(#[trigger] a[i]) == T::name_of(
            #[trigger] b[j],
        ) implies merge::<T>(a, b).contains(T::both(a[i], b[j])) by {
        lemma_collected_value::<T>(a, i);
        lemma_absorbed_value::<T>(c, b, j);
        lemma_in_merge::<T>(a, b, T::name_of(b[j]));
    }
}

/// Whether a counter is the sum of two, or the largest number where the sum is larger.
pub open spec fn counts(r: u64, a: u64, b: u64) -> bool {
    &&& a + b <= u64::MAX ==> r == a + b
    &&& a + b > u64::MAX ==> r == u64::MAX
}

/// Whether the counters of a channel are those of two together.
pub open spec fn channel_counts(
    r: ChannelStatsView,
    a: ChannelStatsView,
    b: ChannelStatsView,
) -> bool {
    &&& counts(r.depth, a.depth, b.depth)
    &&& counts(r.memory_depth, a.memory_depth, b.memory_depth)
    &&& counts(r.backend_depth, a.backend_depth, b.backend_depth)
    &&& counts(r.message_count, a.message_count, b.message_count)
    &&& counts(r.in_flight_count, a.in_flight_count, b.in_flight_count)
    &&& counts(r.deferred_count, a.deferred_count, b.deferred_count)
    &&& counts(r.requeue_count, a.requeue_count, b.requeue_count)
    &&& counts(r.timeout_count, a.timeout_count, b.timeout_count)
    &&& a.client_count + b.client_count <= usize::MAX ==> r.client_count == a.client_count
        + b.client_count
    &&& a.client_count + b.client_count > usize::MAX ==> r.client_count == usize::MAX
    &&& r.paused == (a.paused || b.paused)
}

/// Whether the counters of a topic are those of two together.
pub open spec fn topic_counts(r: TopicStatsView, a: TopicStatsView, b: TopicStatsView) -> bool {
    &&& counts(r.depth, a.depth, b.depth)
    &&& counts(r.memory_depth, a.memory_depth, b.memory_depth)
    &&& counts(r.backend_depth, a.backend_depth, b.backend_depth)
    &&& counts(r.message_count, a.message_count, b.message_count)
    &&& r.paused == (a.paused || b.paused)
}

/// A channel that two lists have has each of its counters summed up, and the clients of both.
pub proof fn law_channels_of_one_name_add_up(
    a: Seq<ChannelStatsView>,
    b: Seq<ChannelStatsView>,
    i: int,
    j: int,
)
    requires
        names_differ::<ChannelStats>(a),
        names_differ::<ChannelStats>(b),
        0 <= i < a.len(),
        0 <= j < b.len(),
        a[i].channel_name == b[j].channel_name,
    ensures
        exists|w: int|
            {
                &&& 0 <= w < merge::<ChannelStats>(a, b).len()
                &&& (#[trigger] merge::<ChannelStats>(a, b)[w]).channel_name == a[i].channel_name
                &&& channel_counts(merge::<ChannelStats>(a, b)[w], a[i], b[j])
                &&& merge::<ChannelStats>(a, b)[w].clients == a[i].clients + b[j].clients
            },
{
    law_merge_goes_name_by_name::<ChannelStats>(a, b);
    let both = ChannelStats::both(a[i], b[j]);
    assert(ChannelStats::name_of(a[i]) == ChannelStats::name_of(b[j]));
    let m = merge::<ChannelStats>(a, b);
    let w = m.index_of(both);
    assert(m[w] == both);
}

/// A topic that two brokers have has each of its counters summed up, and each channel that
/// both have it with too.
pub proof fn law_topics_of_one_name_add_up(
    a: Seq<TopicStatsView>,
    b: Seq<TopicStatsView>,
    i: int,
    j: int,
    x: int,
    y: int,
)
    requires
        names_differ::<TopicStats>(a),
        names_differ::<TopicStats>(b),
        0 <= i < a.len(),
        0 <= j < b.len(),
        a[i].topic_name == b[j].topic_name,
        names_differ::<ChannelStats>(a[i].channels),
        names_differ::<ChannelStats>(b[j].channels),
    ensures
        exists|w: int|
            {
                &&& 0 <= w < merge::<TopicStats>(a, b).len()
                &&& (#[trigger] merge::<TopicStats>(a, b)[w]).topic_name == a[i].topic_name
                &&& topic_counts(merge::<TopicStats>(a, b)[w], a[i], b[j])
                &&& 0 <= x < a[i].channels.len() && 0 <= y < b[j].channels.len()
                    && a[i].channels[x].channel_name == b[j].channels[y].channel_name ==> exists|
                    v: int,
                |
                    0 <= v < merge::<TopicStats>(a, b)[w].channels.len() && (
                    #[trigger] merge::<TopicStats>(a, b)[w].channels[v]).channel_name
                        == a[i].channels[x].channel_name && channel_counts(
                        merge::<TopicStats>(a, b)[w].channels[v],
                        a[i].channels[x],
                        b[j].channels[y],
                    )
            },
{
    law_merge_goes_name_by_name::<TopicStats>(a, b);
    let both = TopicStats::both(a[i], b[j]);
    assert(TopicStats::name_of(a[i]) == TopicStats::name_of(b[j]));
    let m = merge::<TopicStats>(a, b);
    let w = m.index_of(both);
    assert(m[w] == both);
    if 0 <= x < a[i].channels.len() && 0 <= y < b[j].channels.len()
        && a[i].channels[x].channel_name == b[j].channels[y].channel_name {
        law_channels_of_one_name_add_up(a[i].channels, b[j].channels, x, y);
        let c = merge::<ChannelStats>(a[i].channels, b[j].channels);
        assert(m[w].channels == c);
        let v = choose|v: int|
            0 <= v < c.len() && (#[trigger] c[v]).channel_name == a[i].channels[x].channel_name
                && channel_counts(c[v], a[i].channels[x], b[j].channels[y]) && c[v].clients
                == a[i].channels[x].clients + b[j].channels[y].clients;
        assert(m[w].channels[v] == c[v]);
    }
    assert(topic_counts(m[w], a[i], b[j]));
}

/// In which order two brokers are asked makes no difference to the counters.
pub proof fn law_counters_do_not_depend_on_the_order(a: ChannelStatsView, b: ChannelStatsView)
    ensures
        channel_counts(channel_both(b, a), a, b),
        channel_counts(channel_both(a, b), a, b),
{
}

/// Names count whichever heading they stand under, the first before the second; nothing else of
/// a topic or a channel changes.
pub proof fn law_names_stand_under_either_heading(t: TopicStatsView, i: int)
    ensures
        t.topic_name.len() > 0 ==> normal_topic(t).topic_name == t.topic_name,
        t.topic_name.len() == 0 ==> normal_topic(t).topic_name == t.name,
        normal_topic(t).depth == t.depth,
        normal_topic(t).memory_depth == t.memory_depth,
        normal_topic(t).backend_depth == t.backend_depth,
        normal_topic(t).message_count == t.message_count,
        normal_topic(t).paused == t.paused,
        normal_topic(t).channels.len() == t.channels.len(),
        0 <= i < t.channels.len() ==> ({
            let c = normal_topic(t).channels[i];
            &&& t.channels[i].channel_name.len() > 0 ==> c.channel_name
                == t.channels[i].channel_name
            &&& t.channels[i].channel_name.len() == 0 ==> c.channel_name == t.channels[i].name
            &&& c == (ChannelStatsView {
                channel_name: c.channel_name,
                name: c.channel_name,
                ..t.channels[i]
            })
        }),
{
}

/// Of two starts the earlier counts, unless it is not known.
pub proof fn law_the_earliest_known_start_counts(a: i64, b: i64)
    ensures
        earlier_start(a, b) <= a,
        b > 0 ==> earlier_start(a, b) <= b,
        b <= 0 ==> earlier_start(a, b) == a,
        earlier_start(a, b) == a || earlier_start(a, b) == b,
{
}

} // verus!
