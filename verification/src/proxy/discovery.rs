//! Which brokers the proxy learns of.
use crate::ordered::SortedMap;
use crate::proxy::backend;
use crate::proxy::backend::{Backend, BackendPool};
use crate::{ordered, text};
use vstd::prelude::*;
use vstd::string::*;

verus! {

/// The largest head of a list of nodes, in bytes.
pub const MAX_HEAD_BYTES: usize = 65536;

/// The largest list of nodes, in bytes.
pub const MAX_NODES_BYTES: usize = 4194304;

/// After how long nodes are read again although their revision has not changed, in
/// nanoseconds.
pub const FULL_REFRESH_INTERVAL: u128 = 3_000_000_000;

/// How long what was read counts, in nanoseconds.
pub const ROUTING_STALE_AFTER: u128 = 5_000_000_000;

/// The nodes that a replica of Discovery knows.
#[derive(Clone, Debug)]
pub struct NodesResponse {
    pub revision: u64,
    pub producers: Vec<Backend>,
}

/// The head of a list of nodes.
#[derive(Clone, Copy, Debug)]
pub struct HeadResponse {
    pub revision: u64,
}

/// What a replica of Discovery has answered. Times are in nanoseconds.
#[derive(Clone, Debug)]
pub struct Source {
    pub revision: u64,
    pub producers: Vec<Backend>,
    pub brokers: Vec<Backend>,
    pub seen_at: u128,
    pub full_at: u128,
}

/// How long ago something was.
pub open spec fn age(at: u128, now: u128) -> nat {
    if now > at {
        (now - at) as nat
    } else {
        0
    }
}

/// How long ago something was.
fn elapsed(at: u128, now: u128) -> (r: u128)
    ensures
        r == age(at, now),
{
    now.saturating_sub(at)
}

/// Whether a source need not be read again: it has this revision, and was read a short
/// time ago.
pub fn source_is_current(source: &Source, revision: u64, now: u128) -> (r: bool)
    ensures
        r == (source.revision == revision && age(source.full_at, now) < FULL_REFRESH_INTERVAL),
{
    source.revision == revision && elapsed(source.full_at, now) < FULL_REFRESH_INTERVAL
}

/// The revision that the answers agree on.
pub open spec fn agreed_revision(head: Option<u64>, publishers: u64, brokers: Option<u64>) -> Option<
    u64,
> {
    if (head is None || head->0 == publishers) && (brokers is None || brokers->0 == publishers) {
        Some(publishers)
    } else {
        None
    }
}

/// The revision that the answers of one replica agree on.
pub fn coherent_revision(
    head: Option<&HeadResponse>,
    publishers: &NodesResponse,
    brokers: Option<&NodesResponse>,
) -> (r: Option<u64>)
    ensures
        r == agreed_revision(
            match head {
                Some(h) => Some(h.revision),
                None => None,
            },
            publishers.revision,
            match brokers {
                Some(b) => Some(b.revision),
                None => None,
            },
        ),
{
    let revision: u64 = match head {
        Some(h) => h.revision,
        None => publishers.revision,
    };
    if publishers.revision != revision {
        return None;
    }
    match brokers {
        Some(b) => if b.revision == revision {
            Some(revision)
        } else {
            None
        },
        None => Some(revision),
    }
}

/// What is remembered of a replica that was read at `now`. Without a list of brokers the
/// publishers are the brokers.
pub fn source_of(
    revision: u64,
    publishers: NodesResponse,
    brokers: Option<NodesResponse>,
    now: u128,
) -> (r: Source)
    ensures
        r.revision == revision,
        r.producers == publishers.producers,
        r.brokers@ == match brokers {
            Some(b) => b.producers@,
            None => publishers.producers@,
        },
        r.seen_at == now,
        r.full_at == now,
{
    let known = match brokers {
        Some(b) => b.producers,
        None => backend::duplicate_all(&publishers.producers),
    };
    Source { revision, producers: publishers.producers, brokers: known, seen_at: now, full_at: now }
}

/// A source that was seen at `now`, and not read.
pub fn seen_again(source: Source, now: u128) -> (r: Source)
    ensures
        r == (Source { seen_at: now, ..source }),
{
    Source { seen_at: now, ..source }
}

/// Whether what is remembered of a replica need not be read again, by its head.
pub open spec fn known_current(
    sources: Map<Seq<char>, Source>,
    address: Seq<char>,
    head: Option<&HeadResponse>,
    now: u128,
) -> bool {
    head is Some && sources.contains_key(address) && sources[address].revision
        == head->0.revision && age(sources[address].full_at, now) < FULL_REFRESH_INTERVAL
}

/// Notes that a replica was seen, where what is remembered of it need not be read again.
/// Otherwise nothing changes, and it is to be read.
pub fn still_current(
    sources: &mut SortedMap<String, Source>,
    address: &String,
    head: Option<&HeadResponse>,
    now: u128,
) -> (r: bool)
    requires
        old(sources).wf(),
    ensures
        final(sources).wf(),
        r == known_current(old(sources)@, address@, head, now),
        final(sources)@ == if r {
            old(sources)@.insert(
                address@,
                Source { seen_at: now, ..old(sources)@[address@] },
            )
        } else {
            old(sources)@
        },
{
    let current = match (head, sources.get(address)) {
        (Some(head), Some(source)) => source_is_current(source, head.revision, now),
        _ => false,
    };
    if current {
        let ghost before = sources@;
        if let Some(source) = sources.remove(address) {
            sources.insert(address.clone(), seen_again(source, now));
            assert(sources@ =~= before.insert(
                address@,
                Source { seen_at: now, ..before[address@] },
            ));
        }
    }
    current
}

/// Whether a source is what a replica has answered at `now`.
pub open spec fn source_holds(
    source: Source,
    publishers: NodesResponse,
    brokers: Option<NodesResponse>,
    now: u128,
) -> bool {
    &&& source.revision == publishers.revision
    &&& source.producers == publishers.producers
    &&& source.brokers@ == match brokers {
        Some(b) => b.producers@,
        None => publishers.producers@,
    }
    &&& source.seen_at == now
    &&& source.full_at == now
}

/// Remembers what a replica has answered, where its answers agree on a revision. Otherwise
/// nothing changes.
pub fn remember(
    sources: &mut SortedMap<String, Source>,
    address: String,
    head: Option<&HeadResponse>,
    publishers: NodesResponse,
    brokers: Option<NodesResponse>,
    now: u128,
) -> (r: bool)
    requires
        old(sources).wf(),
    ensures
        final(sources).wf(),
        r == (agreed_revision(
            match head {
                Some(h) => Some(h.revision),
                None => None,
            },
            publishers.revision,
            match brokers {
                Some(b) => Some(b.revision),
                None => None,
            },
        ) is Some),
        !r ==> final(sources)@ == old(sources)@,
        r ==> final(sources)@.contains_key(address@) && source_holds(
            final(sources)@[address@],
            publishers,
            brokers,
            now,
        ) && final(sources)@ == old(sources)@.insert(address@, final(sources)@[address@]),
{
    match coherent_revision(head, &publishers, brokers.as_ref()) {
        Some(revision) => {
            sources.insert(address, source_of(revision, publishers, brokers, now));
            true
        },
        None => false,
    }
}

/// A text without the slashes at its end.
pub open spec fn without_slashes(s: Seq<char>) -> Seq<char>
    decreases s.len(),
{
    if s.len() > 0 && s.last() == '/' {
        without_slashes(s.drop_last())
    } else {
        s
    }
}

/// The address of a replica without the slashes at its end.
pub fn base_address(address: &str) -> (r: String)
    ensures
        r@ == without_slashes(address@),
{
    let v = text::chars_of(address);
    let mut n: usize = v.len();
    assert(v@.take(n as int) =~= v@);
    while n > 0 && v[n - 1] == '/'
        invariant
            n <= v@.len(),
            without_slashes(v@.take(n as int)) == without_slashes(v@),
        decreases n,
    {
        proof {
            assert(v@.take(n as int).drop_last() =~= v@.take(n - 1));
            assert(v@.take(n as int).last() == v@[n - 1]);
        }
        n -= 1;
    }
    proof {
        if n > 0 {
            assert(v@.take(n as int).last() == v@[n - 1]);
        }
        assert(v@.subrange(0, n as int) =~= v@.take(n as int));
    }
    text::text_of(v.as_slice(), 0, n)
}

/// The sources that were seen a short time ago.
pub open spec fn fresh(sources: Map<Seq<char>, Source>, now: u128) -> Map<Seq<char>, Source> {
    Map::new(
        |k: Seq<char>| sources.contains_key(k) && age(sources[k].seen_at, now)
            <= ROUTING_STALE_AFTER,
        |k: Seq<char>| sources[k],
    )
}

/// Forgets the sources that were not seen for too long.
pub fn forget_stale(sources: &mut SortedMap<String, Source>, now: u128)
    requires
        old(sources).wf(),
    ensures
        final(sources).wf(),
        final(sources)@ == fresh(old(sources)@, now),
{
    let ghost before = sources@;
    let ghost order = sources.order();
    let mut stale: Vec<String> = Vec::new();
    let mut i: usize = 0;
    while i < sources.keys.len()
        invariant
            sources.wf(),
            sources@ == before,
            sources.order() == order,
            i <= order.len(),
            order.len() == sources.keys@.len(),
            forall|j: int|
                0 <= j < stale@.len() ==> before.contains_key(#[trigger] stale@[j]@) && !fresh(
                    before,
                    now,
                ).contains_key(stale@[j]@),
            forall|j: int|
                0 <= j < i && !fresh(before, now).contains_key(#[trigger] order[j])
                    ==> is_among(stale@, order[j]),
        decreases order.len() - i,
    {
        proof {
            sources.lemma_at(i as int);
        }
        if elapsed(sources.values[i].seen_at, now) > ROUTING_STALE_AFTER {
            let ghost had = stale@;
            let key = sources.keys[i].clone();
            stale.push(key);
            proof {
                assert(stale@[had.len() as int]@ == order[i as int]);
                assert forall|j: int|
                    0 <= j < i + 1 && !fresh(before, now).contains_key(
                        #[trigger] order[j],
                    ) implies is_among(stale@, order[j]) by {
                    if j < i {
                        let p = choose|p: int| 0 <= p < had.len() && #[trigger] had[p]@ == order[j];
                        assert(stale@[p]@ == order[j]);
                    }
                }
            }
        }
        i += 1;
    }
    proof {
        assert forall|k: Seq<char>| before.contains_key(k) && !fresh(
            before,
            now,
        ).contains_key(k) implies is_among(stale@, k) by {
            let p = sources.lemma_position(k);
            assert(order[p] == k);
        }
    }
    let mut i: usize = 0;
    while i < stale.len()
        invariant
            sources.wf(),
            i <= stale@.len(),
            forall|j: int|
                0 <= j < stale@.len() ==> !fresh(before, now).contains_key(
                    #[trigger] stale@[j]@,
                ),
            forall|k: Seq<char>| #[trigger]
                sources@.contains_key(k) ==> before.contains_key(k) && sources@[k] == before[k],
            forall|k: Seq<char>|
                before.contains_key(k) && !is_among(stale@.take(i as int), k)
                    ==> #[trigger] sources@.contains_key(k),
            forall|k: Seq<char>|
                is_among(stale@.take(i as int), k) ==> !#[trigger] sources@.contains_key(k),
        decreases stale@.len() - i,
    {
        let ghost had = sources@;
        let ghost done = stale@.take(i as int);
        sources.remove(&stale[i]);
        proof {
            let next = stale@.take(i + 1);
            assert forall|k: Seq<char>|
                is_among(next, k) <==> is_among(done, k) || k == stale@[i as int]@ by {
                if is_among(done, k) {
                    let p = choose|p: int| 0 <= p < done.len() && #[trigger] done[p]@ == k;
                    assert(next[p]@ == k);
                }
                assert(next[i as int] == stale@[i as int]);
                if is_among(next, k) {
                    let p = choose|p: int| 0 <= p < next.len() && #[trigger] next[p]@ == k;
                    if p < i {
                        assert(done[p]@ == k);
                    }
                }
            }
            assert forall|k: Seq<char>| #[trigger]
                sources@.contains_key(k) implies before.contains_key(k) && sources@[k]
                == before[k] by {
                assert(had.contains_key(k));
            }
            assert forall|k: Seq<char>|
                before.contains_key(k) && !is_among(
                    next,
                    k,
                ) implies #[trigger] sources@.contains_key(k) by {
                assert(had.contains_key(k));
            }
            assert forall|k: Seq<char>|
                is_among(next, k) implies !#[trigger] sources@.contains_key(k) by {
                if is_among(done, k) {
                    assert(!had.contains_key(k));
                }
            }
        }
        i += 1;
    }
    proof {
        assert(stale@.take(i as int) =~= stale@);
        assert forall|k: Seq<char>| #[trigger] sources@.contains_key(k) implies fresh(
            before,
            now,
        ).contains_key(k) by {
            assert(!is_among(stale@, k));
        }
        assert forall|k: Seq<char>| #[trigger]
            fresh(before, now).contains_key(k) implies sources@.contains_key(k) by {
            assert(!is_among(stale@, k));
        }
        assert(sources@ =~= fresh(before, now));
    }
}

/// Whether a text is among some texts.
pub open spec fn is_among(v: Seq<String>, k: Seq<char>) -> bool {
    exists|i: int| 0 <= i < v.len() && #[trigger] v[i]@ == k
}

/// Whether there are sources and all have one revision.
pub open spec fn coherent(s: Seq<Source>) -> bool {
    s.len() > 0 && forall|i: int| 0 <= i < s.len() ==> (#[trigger] s[i]).revision == s[0].revision
}

/// The publishers of some sources, in the order of the sources.
pub open spec fn all_producers(s: Seq<Source>) -> Seq<Backend>
    decreases s.len(),
{
    if s.len() == 0 {
        Seq::empty()
    } else {
        all_producers(s.drop_last()) + s.last().producers@
    }
}

/// The brokers of some sources, in the order of the sources.
pub open spec fn all_brokers(s: Seq<Source>) -> Seq<Backend>
    decreases s.len(),
{
    if s.len() == 0 {
        Seq::empty()
    } else {
        all_brokers(s.drop_last()) + s.last().brokers@
    }
}

/// When the source that was not seen for the longest time was seen.
pub open spec fn earliest(s: Seq<Source>) -> u128
    decreases s.len(),
{
    if s.len() == 0 {
        u128::MAX
    } else {
        let rest = earliest(s.drop_last());
        if s.last().seen_at < rest {
            s.last().seen_at
        } else {
            rest
        }
    }
}

/// The sources in the order of their addresses.
pub open spec fn by_address(sources: Map<Seq<char>, Source>) -> Seq<Source> {
    ordered::in_order::<String, Source>(sources)
}

/// What the sources know, where they agree: publishers, brokers, and the time from which
/// on all of them have.
pub fn coherent_sources(sources: &SortedMap<String, Source>) -> (r: Option<
    (Vec<Backend>, Vec<Backend>, u128),
>)
    requires
        sources.wf(),
    ensures
        r is Some <==> coherent(by_address(sources@)),
        r matches Some((producers, brokers, at)) ==> producers@ == all_producers(
            by_address(sources@),
        ) && brokers@ == all_brokers(by_address(sources@)) && at == earliest(by_address(sources@)),
{
    proof {
        sources.lemma_values();
    }
    let ghost s = sources.values@;
    if sources.values.len() == 0 {
        return None;
    }
    let revision = sources.values[0].revision;
    let mut producers: Vec<Backend> = Vec::new();
    let mut brokers: Vec<Backend> = Vec::new();
    let mut at: u128 = u128::MAX;
    let mut i: usize = 0;
    while i < sources.values.len()
        invariant
            s == sources.values@,
            s == by_address(sources@),
            s.len() > 0,
            revision == s[0].revision,
            i <= s.len(),
            forall|j: int| 0 <= j < i ==> (#[trigger] s[j]).revision == revision,
            producers@ == all_producers(s.take(i as int)),
            brokers@ == all_brokers(s.take(i as int)),
            at == earliest(s.take(i as int)),
        decreases s.len() - i,
    {
        let source = &sources.values[i];
        if source.revision != revision {
            assert(s[i as int].revision != s[0].revision);
            return None;
        }
        let mut p = backend::duplicate_all(&source.producers);
        let mut b = backend::duplicate_all(&source.brokers);
        producers.append(&mut p);
        brokers.append(&mut b);
        if source.seen_at < at {
            at = source.seen_at;
        }
        proof {
            assert(s.take(i + 1).drop_last() =~= s.take(i as int));
            assert(s.take(i + 1).last() == s[i as int]);
        }
        i += 1;
    }
    assert(s.take(i as int) =~= s);
    Some((producers, brokers, at))
}

/// Whether the sources have agreed a short time ago.
pub open spec fn agreed_lately(last_coherent_at: Option<u128>, now: u128) -> bool {
    last_coherent_at is Some && age(last_coherent_at->0, now) <= ROUTING_STALE_AFTER
}

/// Whether the sources have agreed a short time ago.
pub fn last_coherent_is_fresh(last_coherent_at: Option<u128>, now: u128) -> (r: bool)
    ensures
        r == agreed_lately(last_coherent_at, now),
{
    match last_coherent_at {
        Some(at) => elapsed(at, now) <= ROUTING_STALE_AFTER,
        None => false,
    }
}

/// The brokers that are used now: those that the sources agree on; where they do not,
/// those from before for a short time, and none after that.
pub open spec fn routed(
    agreed: bool,
    found: Seq<Backend>,
    before: Seq<Backend>,
    last_coherent_at: Option<u128>,
    now: u128,
) -> Seq<Backend> {
    if agreed {
        backend::unique(found)
    } else if agreed_lately(last_coherent_at, now) {
        before
    } else {
        backend::unique(Seq::empty())
    }
}

/// Brings the brokers up to date with the sources.
pub fn route(
    publish: &mut BackendPool,
    brokers: &mut BackendPool,
    last_coherent_at: &mut Option<u128>,
    sources: &SortedMap<String, Source>,
    now: u128,
)
    requires
        old(publish).wf(),
        old(brokers).wf(),
        sources.wf(),
    ensures
        final(publish).wf(),
        final(brokers).wf(),
        ({
            let s = by_address(sources@);
            let last = *old(last_coherent_at);
            &&& final(publish).backends@ == routed(
                coherent(s),
                all_producers(s),
                old(publish).backends@,
                last,
                now,
            )
            &&& final(brokers).backends@ == routed(
                coherent(s),
                all_brokers(s),
                old(brokers).backends@,
                last,
                now,
            )
            &&& *final(last_coherent_at) == if coherent(s) {
                Some(earliest(s))
            } else {
                last
            }
        }),
{
    match coherent_sources(sources) {
        Some((producers, known, observed_at)) => {
            publish.replace(producers, now);
            brokers.replace(known, now);
            *last_coherent_at = Some(observed_at);
        },
        None => {
            if !last_coherent_is_fresh(*last_coherent_at, now) {
                publish.replace(Vec::new(), now);
                brokers.replace(Vec::new(), now);
            }
        },
    }
}

/// Replicas of Discovery with different revisions are never mixed: what is used then is
/// what was used before, or nothing.
pub proof fn law_mixed_revisions_are_not_routed(
    s: Seq<Source>,
    before: Seq<Backend>,
    last: Option<u128>,
    now: u128,
    i: int,
    j: int,
)
    requires
        0 <= i < s.len(),
        0 <= j < s.len(),
        s[i].revision != s[j].revision,
    ensures
        !coherent(s),
        routed(coherent(s), all_producers(s), before, last, now) == before || routed(
            coherent(s),
            all_producers(s),
            before,
            last,
            now,
        ) == backend::unique(Seq::empty()),
{
}

/// Once the sources have not agreed for long enough, no broker is used any more.
pub proof fn law_stale_routing_is_dropped(
    found: Seq<Backend>,
    before: Seq<Backend>,
    last: Option<u128>,
    now: u128,
)
    requires
        last is None || now - last->0 > ROUTING_STALE_AFTER,
    ensures
        routed(false, found, before, last, now).len() == 0,
{
    backend::lemma_unique_of_none();
}

proof fn lemma_all_of(s: Seq<Source>, b: Backend)
    ensures
        all_producers(s).contains(b) <==> exists|i: int|
            0 <= i < s.len() && (#[trigger] s[i]).producers@.contains(b),
        all_brokers(s).contains(b) <==> exists|i: int|
            0 <= i < s.len() && (#[trigger] s[i]).brokers@.contains(b),
    decreases s.len(),
{
    if s.len() > 0 {
        let d = s.drop_last();
        let n = s.len() - 1;
        lemma_all_of(d, b);
        let p = all_producers(d);
        let q = all_brokers(d);
        if all_producers(s).contains(b) {
            let w = all_producers(s).index_of(b);
            if w < p.len() {
                assert(p[w] == b);
                let i = choose|i: int| 0 <= i < d.len() && (#[trigger] d[i]).producers@.contains(b);
                assert(s[i] == d[i]);
            } else {
                assert(s[n].producers@[w - p.len()] == b);
            }
        }
        if all_brokers(s).contains(b) {
            let w = all_brokers(s).index_of(b);
            if w < q.len() {
                assert(q[w] == b);
                let i = choose|i: int| 0 <= i < d.len() && (#[trigger] d[i]).brokers@.contains(b);
                assert(s[i] == d[i]);
            } else {
                assert(s[n].brokers@[w - q.len()] == b);
            }
        }
        if exists|i: int| 0 <= i < s.len() && (#[trigger] s[i]).producers@.contains(b) {
            let i = choose|i: int| 0 <= i < s.len() && (#[trigger] s[i]).producers@.contains(b);
            if i < n {
                assert(d[i] == s[i]);
                let w = p.index_of(b);
                assert(all_producers(s)[w] == b);
            } else {
                let w = s[n].producers@.index_of(b);
                assert(all_producers(s)[p.len() + w] == b);
            }
        }
        if exists|i: int| 0 <= i < s.len() && (#[trigger] s[i]).brokers@.contains(b) {
            let i = choose|i: int| 0 <= i < s.len() && (#[trigger] s[i]).brokers@.contains(b);
            if i < n {
                assert(d[i] == s[i]);
                let w = q.index_of(b);
                assert(all_brokers(s)[w] == b);
            } else {
                let w = s[n].brokers@.index_of(b);
                assert(all_brokers(s)[q.len() + w] == b);
            }
        }
    }
}

/// While the replicas of Discovery agree, every broker that one of them names is used, for
/// publishing where it is named as a publisher and else for reading, and no other broker is.
pub proof fn law_agreed_brokers_are_used(
    s: Seq<Source>,
    before: Seq<Backend>,
    last: Option<u128>,
    now: u128,
    n: u64,
)
    requires
        s.len() > 0,
        forall|i: int| 0 <= i < s.len() ==> (#[trigger] s[i]).revision == s[0].revision,
    ensures
        backend::knows(routed(coherent(s), all_producers(s), before, last, now), n) <==> exists|
            i: int,
            b: Backend,
        |
            0 <= i < s.len() && #[trigger] s[i].producers@.contains(b) && b.node_id == n,
        backend::knows(routed(coherent(s), all_brokers(s), before, last, now), n) <==> exists|
            i: int,
            b: Backend,
        |
            0 <= i < s.len() && #[trigger] s[i].brokers@.contains(b) && b.node_id == n,
{
    let p = all_producers(s);
    let q = all_brokers(s);
    backend::law_pools_hold_every_broker_once(p, n);
    backend::law_pools_hold_every_broker_once(q, n);
    if backend::knows(p, n) {
        let w = choose|w: int| 0 <= w < p.len() && #[trigger] p[w].node_id == n;
        assert(p.contains(p[w]));
        lemma_all_of(s, p[w]);
        let i = choose|i: int| 0 <= i < s.len() && (#[trigger] s[i]).producers@.contains(p[w]);
        assert(s[i].producers@.contains(p[w]));
    }
    if backend::knows(q, n) {
        let w = choose|w: int| 0 <= w < q.len() && #[trigger] q[w].node_id == n;
        assert(q.contains(q[w]));
        lemma_all_of(s, q[w]);
        let i = choose|i: int| 0 <= i < s.len() && (#[trigger] s[i]).brokers@.contains(q[w]);
        assert(s[i].brokers@.contains(q[w]));
    }
    if exists|i: int, b: Backend|
        0 <= i < s.len() && #[trigger] s[i].producers@.contains(b) && b.node_id == n {
        let (i, b) = choose|i: int, b: Backend|
            0 <= i < s.len() && #[trigger] s[i].producers@.contains(b) && b.node_id == n;
        lemma_all_of(s, b);
        let w = p.index_of(b);
        assert(p[w].node_id == n);
    }
    if exists|i: int, b: Backend|
        0 <= i < s.len() && #[trigger] s[i].brokers@.contains(b) && b.node_id == n {
        let (i, b) = choose|i: int, b: Backend|
            0 <= i < s.len() && #[trigger] s[i].brokers@.contains(b) && b.node_id == n;
        lemma_all_of(s, b);
        let w = q.index_of(b);
        assert(q[w].node_id == n);
    }
}

/// While the replicas of Discovery do not agree, the brokers from before stay in use, but for
/// no longer than five seconds.
pub proof fn law_disagreement_keeps_the_brokers_for_a_while(
    found: Seq<Backend>,
    before: Seq<Backend>,
    at: u128,
    now: u128,
)
    ensures
        now - at <= 5_000_000_000 ==> routed(false, found, before, Some(at), now) == before,
        now - at > 5_000_000_000 ==> routed(false, found, before, Some(at), now).len() == 0,
        routed(false, found, before, None, now).len() == 0,
{
    backend::lemma_unique_of_none();
}

/// The time from which on the replicas count as agreeing is that of the one that was not seen
/// for the longest time.
pub proof fn law_the_oldest_source_counts(s: Seq<Source>, i: int)
    requires
        0 <= i < s.len(),
    ensures
        earliest(s) <= s[i].seen_at,
        exists|j: int| 0 <= j < s.len() && (#[trigger] s[j]).seen_at == earliest(s),
    decreases s.len(),
{
    let d = s.drop_last();
    let n = s.len() - 1;
    if d.len() > 0 {
        let k = if i < n {
            i
        } else {
            0
        };
        law_the_oldest_source_counts(d, k);
        let j = choose|j: int| 0 <= j < d.len() && (#[trigger] d[j]).seen_at == earliest(d);
        assert(s[j] == d[j]);
        assert(d[k] == s[k]);
    } else {
        assert(earliest(d) == u128::MAX);
    }
    assert(s[n] == s.last());
}

/// The answers of a replica are taken only where all that were given have one revision.
pub proof fn law_answers_have_one_revision(head: Option<u64>, publishers: u64, brokers: Option<u64>)
    ensures
        agreed_revision(head, publishers, brokers) matches Some(r) ==> r == publishers && (head
            is Some ==> head->0 == r) && (brokers is Some ==> brokers->0 == r),
        agreed_revision(head, publishers, brokers) is None ==> (head is Some && head->0
            != publishers) || (brokers is Some && brokers->0 != publishers),
{
}

/// A replica need not be read again exactly while its revision is the one that is remembered
/// and it was read less than three seconds ago.
pub proof fn law_known_revisions_are_not_read_again(
    sources: Map<Seq<char>, Source>,
    address: Seq<char>,
    head: Option<&HeadResponse>,
    now: u128,
)
    ensures
        known_current(sources, address, head, now) <==> {
            &&& head is Some
            &&& sources.contains_key(address)
            &&& sources[address].revision == head->0.revision
            &&& now - sources[address].full_at < 3_000_000_000
        },
{
}

/// Sources count for five seconds after they were seen.
pub proof fn law_sources_count_for_a_while(
    sources: Map<Seq<char>, Source>,
    now: u128,
    k: Seq<char>,
)
    ensures
        fresh(sources, now).contains_key(k) <==> sources.contains_key(k) && now
            - sources[k].seen_at <= 5_000_000_000,
        fresh(sources, now).contains_key(k) ==> fresh(sources, now)[k] == sources[k],
{
}

/// What a replica answered is remembered as it was answered, at the time of the
/// answer: where it named no brokers of its own, its publishers are its brokers.
/// The other replicas stay as they were.
pub proof fn law_answers_are_remembered_as_they_were(
    address: String,
    head: Option<&HeadResponse>,
    publishers: NodesResponse,
    brokers: Option<NodesResponse>,
    now: u128,
    r: bool,
)
    ensures
        forall|m: &mut SortedMap<String, Source>| #[trigger]
            call_ensures(remember, (m, address, head, publishers, brokers, now), r) ==> {
                &&& r <==> (head is None || head->0.revision == publishers.revision) && (
                brokers is None || brokers->0.revision == publishers.revision)
                &&& !r ==> final(m)@ == m@
                &&& r ==> final(m)@.contains_key(address@)
                &&& r ==> final(m)@[address@].revision == publishers.revision
                &&& r ==> final(m)@[address@].producers == publishers.producers
                &&& r && brokers is Some ==> final(m)@[address@].brokers@
                    == brokers->0.producers@
                &&& r && brokers is None ==> final(m)@[address@].brokers@ == publishers.producers@
                &&& r ==> final(m)@[address@].seen_at == now && final(m)@[address@].full_at == now
                &&& forall|k: Seq<char>|
                    k != address@ ==> (#[trigger] final(m)@.contains_key(k) == m@.contains_key(k))
                        && (m@.contains_key(k) ==> final(m)@[k] == m@[k])
            },
{
}

} // verus!
