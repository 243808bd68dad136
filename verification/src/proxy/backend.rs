//! The brokers that the proxy sends to.
use crate::ordered::OrderedKey;
use crate::{ordered, text};
use rand::seq::SliceRandom;
use std::collections::BTreeMap;
use vstd::prelude::*;
use vstd::std_specs::cmp::OrdSpec;
use vstd::string::*;

verus! {

broadcast use {vstd::std_specs::btree::group_btree_axioms, vstd::laws_cmp::group_laws_cmp};

/// A broker.
#[derive(Clone, Debug, PartialEq, Eq)]
pub struct Backend {
    pub broadcast_address: String,
    pub tcp_port: u16,
    pub http_port: u16,
    pub node_id: u64,
}

/// The origin of a broker's HTTP interface.
pub open spec fn origin_of(address: Seq<char>, port: nat) -> Seq<char> {
    if text::has_text(address, ":"@) && !text::starts(address, "["@) {
        "http://["@ + address + "]:"@ + text::dec(port)
    } else {
        "http://"@ + address + ":"@ + text::dec(port)
    }
}

impl Backend {
    /// Where the broker takes TCP connections.
    pub fn tcp_address(&self) -> (r: String)
        ensures
            r@ == self.broadcast_address@ + ":"@ + text::dec(self.tcp_port as nat),
    {
        let mut r = self.broadcast_address.clone();
        r.append(":");
        r.append(text::decimal(self.tcp_port as u64).as_str());
        r
    }

    /// The origin of the broker's HTTP interface. An IPv6 address stands in brackets.
    pub fn http_origin(&self) -> (r: String)
        ensures
            r@ == origin_of(self.broadcast_address@, self.http_port as nat),
    {
        let address = self.broadcast_address.as_str();
        if text::contains_text(address, ":") && !text::starts_with(address, "[") {
            let mut r = "http://[".to_owned();
            r.append(address);
            r.append("]:");
            r.append(text::decimal(self.http_port as u64).as_str());
            r
        } else {
            let mut r = "http://".to_owned();
            r.append(address);
            r.append(":");
            r.append(text::decimal(self.http_port as u64).as_str());
            r
        }
    }

    /// A copy.
    pub fn duplicate(&self) -> (r: Backend)
        ensures
            r == *self,
    {
        Backend {
            broadcast_address: self.broadcast_address.clone(),
            tcp_port: self.tcp_port,
            http_port: self.http_port,
            node_id: self.node_id,
        }
    }

    /// Whether two brokers are the same in everything.
    pub open spec fn same_as(&self, other: &Backend) -> bool {
        self.broadcast_address@ == other.broadcast_address@ && self.tcp_port == other.tcp_port
            && self.http_port == other.http_port && self.node_id == other.node_id
    }

    /// Whether two brokers are the same in everything.
    pub fn same(&self, other: &Backend) -> (r: bool)
        ensures
            r == self.same_as(other),
    {
        self.tcp_port == other.tcp_port && self.http_port == other.http_port && self.node_id
            == other.node_id && text::str_eq(
            self.broadcast_address.as_str(),
            other.broadcast_address.as_str(),
        )
    }
}

/// A copy of some brokers.
pub fn duplicate_all(backends: &Vec<Backend>) -> (r: Vec<Backend>)
    ensures
        r@ == backends@,
{
    let mut r: Vec<Backend> = Vec::new();
    let mut i: usize = 0;
    while i < backends.len()
        invariant
            i <= backends@.len(),
            r@ == backends@.take(i as int),
        decreases backends@.len() - i,
    {
        r.push(backends[i].duplicate());
        proof {
            assert(backends@.take(i + 1) =~= backends@.take(i as int).push(backends@[i as int]));
        }
        i += 1;
    }
    assert(backends@.take(i as int) =~= backends@);
    r
}

/// The brokers that know connections are made to.
pub struct BackendPool {
    /// The brokers, in the order of their numbers.
    pub backends: Vec<Backend>,
    /// How many connections each broker has.
    pub active_connections: BTreeMap<u64, usize>,
    /// How many leases were given.
    pub next_tie: usize,
    /// When the brokers were last replaced, in nanoseconds.
    pub updated_at: Option<u128>,
}

/// The last broker under each number.
pub open spec fn by_number(backends: Seq<Backend>) -> Map<u64, Backend>
    decreases backends.len(),
{
    if backends.len() == 0 {
        Map::empty()
    } else {
        by_number(backends.drop_last()).insert(backends.last().node_id, backends.last())
    }
}

/// One broker for each number, in the order of the numbers.
pub open spec fn unique(backends: Seq<Backend>) -> Seq<Backend> {
    ordered::in_order::<u64, Backend>(by_number(backends))
}

/// Whether a broker has this number.
pub open spec fn knows(backends: Seq<Backend>, node_id: u64) -> bool {
    exists|i: int| 0 <= i < backends.len() && #[trigger] backends[i].node_id == node_id
}

/// How many connections a broker has.
pub open spec fn active_on(active: Map<u64, usize>, node_id: u64) -> usize {
    if active.contains_key(node_id) {
        active[node_id]
    } else {
        0
    }
}

/// The counts that stay: those above nothing, and those of known brokers.
pub open spec fn kept(active: Map<u64, usize>, backends: Seq<Backend>) -> Map<u64, usize> {
    Map::new(
        |k: u64| active.contains_key(k) && (active[k] > 0 || knows(backends, k)),
        |k: u64| active[k],
    )
}

/// The fewest connections that one of the brokers has.
pub open spec fn fewest(backends: Seq<Backend>, active: Map<u64, usize>) -> usize
    decreases backends.len(),
{
    if backends.len() == 0 {
        usize::MAX
    } else {
        let rest = fewest(backends.drop_last(), active);
        let last = active_on(active, backends.last().node_id);
        if last < rest {
            last
        } else {
            rest
        }
    }
}

/// The brokers that have this many connections.
pub open spec fn having(backends: Seq<Backend>, active: Map<u64, usize>, count: usize) -> Seq<
    Backend,
> {
    backends.filter(|b: Backend| active_on(active, b.node_id) == count)
}

/// The brokers that the next lease is chosen from.
pub open spec fn candidates(backends: Seq<Backend>, active: Map<u64, usize>) -> Seq<Backend> {
    having(backends, active, fewest(backends, active))
}

/// The broker of the next lease.
pub open spec fn next_lease(backends: Seq<Backend>, active: Map<u64, usize>, tie: nat) -> Backend {
    candidates(backends, active)[(tie % candidates(backends, active).len()) as int]
}

/// One more, beginning again after the largest.
pub open spec fn one_more(n: usize) -> usize {
    if n == usize::MAX {
        0
    } else {
        (n + 1) as usize
    }
}

/// The counts after a lease.
pub open spec fn leased(active: Map<u64, usize>, node_id: u64) -> Map<u64, usize> {
    active.insert(node_id, one_more(active_on(active, node_id)))
}

/// The counts after a lease has ended.
pub open spec fn released(active: Map<u64, usize>, backends: Seq<Backend>, node_id: u64) -> Map<
    u64,
    usize,
> {
    if !active.contains_key(node_id) {
        active
    } else if active[node_id] <= 1 && !knows(backends, node_id) {
        active.remove(node_id)
    } else {
        active.insert(
            node_id,
            if active[node_id] == 0 {
                0
            } else {
                (active[node_id] - 1) as usize
            },
        )
    }
}

/// Some brokers in any order.
pub open spec fn shuffle_of(backends: Seq<Backend>, r: Seq<Backend>) -> bool {
    r.to_multiset() == backends.to_multiset()
}

/// `SliceRandom::shuffle` of rand with `rand::thread_rng`: the same brokers, in an
/// order that chance decides on.
#[verifier::external_body]
fn shuffle(backends: Vec<Backend>) -> (r: Vec<Backend>)
    ensures
        shuffle_of(backends@, r@),
{
    let mut backends = backends;
    backends.shuffle(&mut rand::thread_rng());
    backends
}

/// The first of some brokers, at most `limit` of them.
pub fn first_of(backends: Vec<Backend>, limit: usize) -> (r: Vec<Backend>)
    ensures
        r@ == if limit < backends@.len() {
            backends@.take(limit as int)
        } else {
            backends@
        },
{
    let mut r = backends;
    if limit < r.len() {
        r.truncate(limit);
        assert(r@ =~= backends@.take(limit as int));
    }
    r
}

proof fn lemma_by_number(backends: Seq<Backend>)
    ensures
        forall|k: u64| #[trigger]
            by_number(backends).contains_key(k) ==> by_number(backends)[k].node_id == k,
        forall|k: u64| #[trigger] by_number(backends).contains_key(k) <==> knows(backends, k),
    decreases backends.len(),
{
    if backends.len() > 0 {
        let rest = backends.drop_last();
        lemma_by_number(rest);
        let all = by_number(backends);
        assert(all == by_number(rest).insert(backends.last().node_id, backends.last()));
        assert forall|k: u64| #[trigger] all.contains_key(k) implies all[k].node_id == k by {
            assert(k == backends.last().node_id || by_number(rest).contains_key(k));
        }
        assert forall|k: u64| #[trigger] all.contains_key(k) <==> knows(backends, k) by {
            assert(by_number(rest).contains_key(k) <==> knows(rest, k));
            if knows(rest, k) {
                let i = choose|i: int| 0 <= i < rest.len() && #[trigger] rest[i].node_id == k;
                assert(backends[i].node_id == k);
            }
            if knows(backends, k) {
                let i = choose|i: int|
                    0 <= i < backends.len() && #[trigger] backends[i].node_id == k;
                if i < rest.len() {
                    assert(rest[i].node_id == k);
                }
            }
            assert(backends[backends.len() - 1].node_id == backends.last().node_id);
        }
    }
}

/// Of no brokers there is none.
pub proof fn lemma_unique_of_none()
    ensures
        unique(Seq::empty()) == Seq::<Backend>::empty(),
{
    let none = Seq::<u64>::empty();
    let dom = by_number(Seq::empty()).dom();
    assert(ordered::is_listing::<u64>(dom, none)) by {
        assert forall|k: u64| #[trigger] none.contains(k) <==> dom.contains(k) by {}
    }
    ordered::lemma_listed::<u64>(dom, none);
    assert(unique(Seq::empty()) =~= Seq::<Backend>::empty());
}

proof fn lemma_fewest(backends: Seq<Backend>, active: Map<u64, usize>)
    ensures
        forall|i: int|
            0 <= i < backends.len() ==> fewest(backends, active) <= active_on(
                active,
                (#[trigger] backends[i]).node_id,
            ),
        backends.len() > 0 ==> exists|i: int|
            0 <= i < backends.len() && active_on(active, (#[trigger] backends[i]).node_id)
                == fewest(backends, active),
    decreases backends.len(),
{
    if backends.len() > 0 {
        let rest = backends.drop_last();
        lemma_fewest(rest, active);
        assert(backends[backends.len() - 1] == backends.last());
        if rest.len() > 0 {
            let i = choose|i: int|
                0 <= i < rest.len() && active_on(active, (#[trigger] rest[i]).node_id) == fewest(
                    rest,
                    active,
                );
            assert(backends[i] == rest[i]);
        }
        assert forall|i: int| 0 <= i < backends.len() implies fewest(backends, active) <= active_on(
            active,
            (#[trigger] backends[i]).node_id,
        ) by {
            if i < rest.len() {
                assert(rest[i] == backends[i]);
            }
        }
    }
}

proof fn lemma_having(backends: Seq<Backend>, active: Map<u64, usize>, count: usize)
    ensures
        forall|i: int|
            0 <= i < having(backends, active, count).len() ==> backends.contains(
                #[trigger] having(backends, active, count)[i],
            ) && active_on(active, having(backends, active, count)[i].node_id) == count,
        forall|i: int|
            0 <= i < backends.len() && active_on(active, (#[trigger] backends[i]).node_id) == count
                ==> having(backends, active, count).len() > 0,
    decreases backends.len(),
{
    reveal(Seq::filter);
    if backends.len() > 0 {
        let rest = backends.drop_last();
        lemma_having(rest, active, count);
        let h = having(backends, active, count);
        assert forall|i: int| 0 <= i < h.len() implies backends.contains(#[trigger] h[i])
            && active_on(active, h[i].node_id) == count by {
            let g = having(rest, active, count);
            if i < g.len() {
                assert(h[i] == g[i]);
                let j = choose|j: int| 0 <= j < rest.len() && rest[j] == g[i];
                assert(backends[j] == h[i]);
            } else {
                assert(backends[backends.len() - 1] == h[i]);
            }
        }
        assert forall|i: int|
            0 <= i < backends.len() && active_on(active, (#[trigger] backends[i]).node_id)
                == count implies h.len() > 0 by {
            if i < rest.len() {
                assert(rest[i] == backends[i]);
            }
        }
    }
}

impl BackendPool {
    /// Whether the brokers stand in the order of their numbers, each once.
    pub open spec fn wf(&self) -> bool {
        forall|i: int, j: int|
            0 <= i < j < self.backends@.len() ==> (#[trigger] self.backends@[i]).node_id < (
            #[trigger] self.backends@[j]).node_id
    }

    /// No brokers.
    pub fn new() -> (r: BackendPool)
        ensures
            r.wf(),
            r.backends@.len() == 0,
            r.active_connections@ == Map::<u64, usize>::empty(),
            r.next_tie == 0,
            r.updated_at is None,
    {
        BackendPool {
            backends: Vec::new(),
            active_connections: BTreeMap::new(),
            next_tie: 0,
            updated_at: None,
        }
    }

    fn known(backends: &Vec<Backend>, node_id: u64) -> (r: bool)
        ensures
            r == knows(backends@, node_id),
    {
        let mut i: usize = 0;
        while i < backends.len()
            invariant
                i <= backends@.len(),
                forall|j: int| 0 <= j < i ==> (#[trigger] backends@[j]).node_id != node_id,
            decreases backends@.len() - i,
        {
            if backends[i].node_id == node_id {
                return true;
            }
            i += 1;
        }
        false
    }

    fn keep(active: &BTreeMap<u64, usize>, backends: &Vec<Backend>) -> (r: BTreeMap<u64, usize>)
        ensures
            r@ == kept(active@, backends@),
    {
        let mut r: BTreeMap<u64, usize> = BTreeMap::new();
        for entry in it: active.iter()
            invariant
                forall|k: u64| #[trigger]
                    r@.contains_key(k) ==> kept(active@, backends@).contains_key(k) && r@[k]
                        == active@[k],
                forall|j: int|
                    0 <= j < it.index() && kept(active@, backends@).contains_key(
                        *(#[trigger] it.seq()[j]).0,
                    ) ==> r@.contains_key(*it.seq()[j].0),
                forall|j: int|
                    0 <= j < it.seq().len() ==> active@.contains_key(*(#[trigger] it.seq()[j]).0)
                        && active@[*it.seq()[j].0] == *it.seq()[j].1,
                forall|k: u64| #[trigger]
                    active@.contains_key(k) ==> it.seq().contains((&k, &active@[k])),
        {
            let node_id: u64 = *entry.0;
            let count: usize = *entry.1;
            if count > 0 || Self::known(backends, node_id) {
                r.insert(node_id, count);
            }
        }
        assert(r@ =~= kept(active@, backends@));
        r
    }

    fn in_order(by_id: &BTreeMap<u64, Backend>) -> (r: Vec<Backend>)
        ensures
            r@ == ordered::in_order::<u64, Backend>(by_id@),
            ordered::is_listing::<u64>(by_id@.dom(), ordered::listed::<u64>(by_id@.dom())),
    {
        let mut r: Vec<Backend> = Vec::new();
        let ghost keys = Seq::<u64>::empty();
        for entry in it: by_id.iter()
            invariant
                r@.len() == it.index(),
                keys.len() == it.index(),
                forall|j: int| 0 <= j < keys.len() ==> #[trigger] keys[j] == *it.seq()[j].0,
                forall|j: int| 0 <= j < r@.len() ==> #[trigger] r@[j] == by_id@[keys[j]],
                ordered::increasing::<u64>(keys),
                forall|j: int| 0 <= j < keys.len() ==> by_id@.contains_key(#[trigger] keys[j]),
                forall|k: u64| #[trigger]
                    by_id@.contains_key(k) ==> keys.contains(k) || exists|j: int|
                        it.index() <= j < it.seq().len() && *(#[trigger] it.seq()[j]).0 == k,
                vstd::std_specs::btree::increasing_seq(
                    it.seq().map_values(|e: (&u64, &Backend)| *e.0),
                ),
                forall|j: int|
                    0 <= j < it.seq().len() ==> by_id@.contains_key(*(#[trigger] it.seq()[j]).0)
                        && by_id@[*it.seq()[j].0] == *it.seq()[j].1,
                forall|k: u64| #[trigger]
                    by_id@.contains_key(k) ==> it.seq().contains((&k, &by_id@[k])),
        {
            r.push(entry.1.duplicate());
            proof {
                let all = it.seq().map_values(|e: (&u64, &Backend)| *e.0);
                let at = it.index();
                assert(all[at] == *entry.0);
                assert forall|j: int| 0 <= j < at implies #[trigger] keys[j] < *entry.0 by {
                    assert(all[j] == keys[j]);
                    assert(all[j].cmp_spec(&all[at]) is Less);
                }
                let before = keys;
                keys = keys.push(*entry.0);
                assert forall|k: u64| #[trigger] by_id@.contains_key(k) implies keys.contains(k)
                    || exists|j: int|
                    at + 1 <= j < it.seq().len() && *(#[trigger] it.seq()[j]).0 == k by {
                    if before.contains(k) {
                        let j = choose|j: int| 0 <= j < before.len() && before[j] == k;
                        assert(keys[j] == k);
                    } else {
                        let j = choose|j: int|
                            at <= j < it.seq().len() && *(#[trigger] it.seq()[j]).0 == k;
                        if j == at {
                            assert(keys[at] == k);
                        }
                    }
                }
            }
        }
        proof {
            assert forall|k: u64| #[trigger] keys.contains(k) implies by_id@.contains_key(k) by {
                let j = choose|j: int| 0 <= j < keys.len() && keys[j] == k;
                assert(by_id@.contains_key(keys[j]));
            }
            assert(ordered::is_listing::<u64>(by_id@.dom(), keys));
            ordered::lemma_listed::<u64>(by_id@.dom(), keys);
            assert(r@ =~= ordered::in_order::<u64, Backend>(by_id@));
        }
        r
    }

    /// Takes these brokers in place of the ones before. Of those with one number the
    /// last counts, and brokers with connections keep their counts.
    pub fn replace(&mut self, backends: Vec<Backend>, now: u128)
        requires
            old(self).wf(),
        ensures
            final(self).wf(),
            final(self).backends@ == unique(backends@),
            final(self).active_connections@ == kept(old(self).active_connections@, backends@),
            final(self).next_tie == old(self).next_tie,
            final(self).updated_at == Some(now),
    {
        let mut by_id: BTreeMap<u64, Backend> = BTreeMap::new();
        let mut i: usize = 0;
        while i < backends.len()
            invariant
                i <= backends@.len(),
                by_id@ == by_number(backends@.take(i as int)),
            decreases backends@.len() - i,
        {
            let backend = backends[i].duplicate();
            proof {
                assert(backends@.take(i + 1).drop_last() =~= backends@.take(i as int));
                assert(backends@.take(i + 1).last() == backends@[i as int]);
            }
            by_id.insert(backend.node_id, backend);
            i += 1;
        }
        assert(backends@.take(i as int) =~= backends@);
        self.active_connections = Self::keep(&self.active_connections, &backends);
        self.backends = Self::in_order(&by_id);
        self.updated_at = Some(now);
        proof {
            lemma_by_number(backends@);
            let order = ordered::listed::<u64>(by_id@.dom());
            let u = self.backends@;
            assert forall|a: int, b: int| 0 <= a < b < u.len() implies (#[trigger] u[a]).node_id < (
            #[trigger] u[b]).node_id by {
                assert(order.contains(order[a]) && order.contains(order[b]));
                assert(u64::before(order[a], order[b]));
                assert(by_id@.contains_key(order[a]) && by_id@.contains_key(order[b]));
            }
        }
    }

    /// Forgets the brokers where they were last replaced longer ago than `maximum_age`.
    pub fn clear_if_stale(&mut self, maximum_age: u128, now: u128)
        requires
            old(self).wf(),
        ensures
            final(self).wf(),
            final(self).backends@ == if match old(self).updated_at {
                None => true,
                Some(at) => now - at > maximum_age,
            } {
                Seq::<Backend>::empty()
            } else {
                old(self).backends@
            },
            final(self).active_connections == old(self).active_connections,
            final(self).next_tie == old(self).next_tie,
            final(self).updated_at == old(self).updated_at,
    {
        let stale = match self.updated_at {
            None => true,
            Some(at) => now > at && now - at > maximum_age,
        };
        if stale {
            self.backends = Vec::new();
        }
    }

    /// Some of the brokers, at most `limit` of them, in an order that chance decides on.
    pub fn shuffled(&self, limit: usize) -> (r: Vec<Backend>)
        ensures
            exists|s: Seq<Backend>| #[trigger]
                shuffle_of(self.backends@, s) && r@ == if limit < s.len() {
                    s.take(limit as int)
                } else {
                    s
                },
            r@.len() == if limit < self.backends@.len() {
                limit as nat
            } else {
                self.backends@.len()
            },
    {
        let s = shuffle(duplicate_all(&self.backends));
        proof {
            vstd::seq_lib::to_multiset_len(self.backends@);
            vstd::seq_lib::to_multiset_len(s@);
        }
        first_of(s, limit)
    }

    fn count_of(&self, node_id: u64) -> (r: usize)
        requires
            self.wf(),
        ensures
            r == active_on(self.active_connections@, node_id),
    {
        match self.active_connections.get(&node_id) {
            Some(n) => *n,
            None => 0,
        }
    }

    /// A broker for a new connection: one of those with the fewest connections, by turns.
    pub fn lease(&mut self) -> (r: Option<Backend>)
        requires
            old(self).wf(),
        ensures
            final(self).wf(),
            final(self).backends == old(self).backends,
            final(self).updated_at == old(self).updated_at,
            r is None <==> old(self).backends@.len() == 0,
            r is None ==> final(self).active_connections == old(self).active_connections
                && final(self).next_tie == old(self).next_tie,
            r matches Some(b) ==> {
                let active = old(self).active_connections@;
                &&& b == next_lease(old(self).backends@, active, old(self).next_tie as nat)
                &&& final(self).next_tie == one_more(old(self).next_tie)
                &&& final(self).active_connections@ == leased(active, b.node_id)
            },
    {
        if self.backends.len() == 0 {
            return None;
        }
        let ghost active = self.active_connections@;
        let mut minimum: usize = usize::MAX;
        let mut i: usize = 0;
        while i < self.backends.len()
            invariant
                self.wf(),
                active == self.active_connections@,
                i <= self.backends@.len(),
                minimum == fewest(self.backends@.take(i as int), active),
            decreases self.backends@.len() - i,
        {
            let count = self.count_of(self.backends[i].node_id);
            proof {
                let s = self.backends@;
                assert(s.take(i + 1).drop_last() =~= s.take(i as int));
                assert(s.take(i + 1).last() == s[i as int]);
            }
            if count < minimum {
                minimum = count;
            }
            i += 1;
        }
        assert(self.backends@.take(i as int) =~= self.backends@);
        let mut chosen: Vec<Backend> = Vec::new();
        let mut i: usize = 0;
        while i < self.backends.len()
            invariant
                self.wf(),
                active == self.active_connections@,
                i <= self.backends@.len(),
                chosen@ == having(self.backends@.take(i as int), active, minimum),
            decreases self.backends@.len() - i,
        {
            proof {
                let s = self.backends@;
                reveal(Seq::filter);
                assert(s.take(i + 1).drop_last() =~= s.take(i as int));
                assert(s.take(i + 1).last() == s[i as int]);
            }
            if self.count_of(self.backends[i].node_id) == minimum {
                chosen.push(self.backends[i].duplicate());
            }
            i += 1;
        }
        proof {
            assert(self.backends@.take(i as int) =~= self.backends@);
            lemma_fewest(self.backends@, active);
            lemma_having(self.backends@, active, minimum);
            let w = choose|i: int|
                0 <= i < self.backends@.len() && active_on(
                    active,
                    (#[trigger] self.backends@[i]).node_id,
                ) == minimum;
            assert(chosen@.len() > 0);
        }
        let backend = chosen[self.next_tie % chosen.len()].duplicate();
        self.next_tie = if self.next_tie == usize::MAX {
            0
        } else {
            self.next_tie + 1
        };
        let count = self.count_of(backend.node_id);
        self.active_connections.insert(
            backend.node_id,
            if count == usize::MAX {
                0
            } else {
                count + 1
            },
        );
        Some(backend)
    }

    /// Ends a connection to a broker.
    pub fn release(&mut self, node_id: u64)
        requires
            old(self).wf(),
        ensures
            final(self).wf(),
            final(self).backends == old(self).backends,
            final(self).active_connections@ == released(
                old(self).active_connections@,
                old(self).backends@,
                node_id,
            ),
            final(self).next_tie == old(self).next_tie,
            final(self).updated_at == old(self).updated_at,
    {
        let count: usize = match self.active_connections.get(&node_id) {
            None => {
                return;
            },
            Some(n) => *n,
        };
        if count <= 1 && !Self::known(&self.backends, node_id) {
            self.active_connections.remove(&node_id);
        } else {
            self.active_connections.insert(
                node_id,
                if count == 0 {
                    0
                } else {
                    count - 1
                },
            );
        }
    }

    /// How many brokers there are.
    pub fn len(&self) -> (r: usize)
        ensures
            r == self.backends@.len(),
    {
        self.backends.len()
    }

    /// Whether there are no brokers.
    pub fn is_empty(&self) -> (r: bool)
        ensures
            r == (self.backends@.len() == 0),
    {
        self.backends.len() == 0
    }

    /// All brokers.
    pub fn all(&self) -> (r: Vec<Backend>)
        ensures
            r@ == self.backends@,
    {
        duplicate_all(&self.backends)
    }

    /// Whether one of the brokers is this one in everything.
    pub fn holds(&self, backend: &Backend) -> (r: bool)
        ensures
            r == exists|i: int|
                0 <= i < self.backends@.len() && (#[trigger] self.backends@[i]).same_as(backend),
    {
        let mut i: usize = 0;
        while i < self.backends.len()
            invariant
                i <= self.backends@.len(),
                forall|j: int| 0 <= j < i ==> !(#[trigger] self.backends@[j]).same_as(backend),
            decreases self.backends@.len() - i,
        {
            if self.backends[i].same(backend) {
                return true;
            }
            i += 1;
        }
        false
    }
}

/// A lease is given on a broker of the pool, and no broker has fewer connections.
pub proof fn law_leases_go_to_the_least_loaded(
    backends: Seq<Backend>,
    active: Map<u64, usize>,
    tie: nat,
)
    requires
        backends.len() > 0,
    ensures
        backends.contains(next_lease(backends, active, tie)),
        forall|i: int|
            0 <= i < backends.len() ==> active_on(active, next_lease(backends, active, tie).node_id)
                <= active_on(active, (#[trigger] backends[i]).node_id),
{
    let m = fewest(backends, active);
    lemma_fewest(backends, active);
    lemma_having(backends, active, m);
    let w = choose|i: int|
        0 <= i < backends.len() && active_on(active, (#[trigger] backends[i]).node_id) == m;
    assert(candidates(backends, active).len() > 0);
    let at = (tie % candidates(backends, active).len()) as int;
    assert(having(backends, active, m)[at] == next_lease(backends, active, tie));
}

/// Leases spread before a broker is used again: where the counts of the brokers are
/// `low` or one more, they stay within one of each other.
pub proof fn law_leases_stay_spread(
    backends: Seq<Backend>,
    active: Map<u64, usize>,
    tie: nat,
    low: nat,
)
    requires
        backends.len() > 0,
        low + 1 < usize::MAX,
        forall|i: int|
            0 <= i < backends.len() ==> low <= active_on(active, (#[trigger] backends[i]).node_id)
                <= low + 1,
    ensures
        ({
            let after = leased(active, next_lease(backends, active, tie).node_id);
            let least = fewest(backends, active);
            forall|i: int|
                0 <= i < backends.len() ==> least <= active_on(
                    after,
                    (#[trigger] backends[i]).node_id,
                ) <= least + 1
        }),
{
    law_leases_go_to_the_least_loaded(backends, active, tie);
    lemma_fewest(backends, active);
    let b = next_lease(backends, active, tie);
    let j = choose|j: int| 0 <= j < backends.len() && backends[j] == b;
    assert(backends[j].node_id == b.node_id);
    let w = choose|i: int|
        0 <= i < backends.len() && active_on(active, (#[trigger] backends[i]).node_id) == fewest(
            backends,
            active,
        );
    assert(active_on(active, backends[w].node_id) == fewest(backends, active));
}

/// Ending a connection undoes the lease that began it.
pub proof fn law_release_undoes_a_lease(
    active: Map<u64, usize>,
    backends: Seq<Backend>,
    node_id: u64,
    other: u64,
)
    requires
        active_on(active, node_id) < usize::MAX,
    ensures
        active_on(released(leased(active, node_id), backends, node_id), other) == active_on(
            active,
            other,
        ),
{
}

/// A lease adds one connection to its broker and none to any other; its end takes one away
/// again, from a broker that has one.
pub proof fn law_leases_count_one_connection(
    active: Map<u64, usize>,
    backends: Seq<Backend>,
    node_id: u64,
    other: u64,
)
    ensures
        active_on(active, node_id) < usize::MAX ==> active_on(leased(active, node_id), node_id)
            == active_on(active, node_id) + 1,
        other != node_id ==> active_on(leased(active, node_id), other) == active_on(active, other),
        active_on(active, node_id) > 0 ==> active_on(released(active, backends, node_id), node_id)
            == active_on(active, node_id) - 1,
        active_on(active, node_id) == 0 ==> active_on(released(active, backends, node_id), node_id)
            == 0,
        other != node_id ==> active_on(released(active, backends, node_id), other) == active_on(
            active,
            other,
        ),
{
}

/// Of brokers with equally few connections each has its turn: the next lease after one goes to
/// another.
pub proof fn law_equal_brokers_take_turns(
    backends: Seq<Backend>,
    active: Map<u64, usize>,
    tie: nat,
    i: int,
    j: int,
)
    requires
        0 <= i < candidates(backends, active).len(),
        i + 1 < candidates(backends, active).len() ==> j == i + 1,
        i + 1 == candidates(backends, active).len() ==> j == 0,
        candidates(backends, active)[i] == next_lease(backends, active, tie),
        tie % candidates(backends, active).len() == i,
    ensures
        next_lease(backends, active, tie + 1) == candidates(backends, active)[j],
{
    let n = candidates(backends, active).len();
    vstd::arithmetic::div_mod::lemma_fundamental_div_mod(tie as int, n as int);
    assert(n as int * (tie as int / n as int) == (tie as int / n as int) * n as int)
        by (nonlinear_arith);
    if i + 1 < n {
        vstd::arithmetic::div_mod::lemma_fundamental_div_mod_converse(
            tie as int + 1,
            n as int,
            tie as int / n as int,
            i + 1,
        );
    } else {
        assert((tie as int / n as int + 1) * n as int == (tie as int / n as int) * n as int
            + n as int) by (nonlinear_arith);
        vstd::arithmetic::div_mod::lemma_fundamental_div_mod_converse(
            tie as int + 1,
            n as int,
            tie as int / n as int + 1,
            0,
        );
    }
}

proof fn lemma_found_by_number(backends: Seq<Backend>)
    ensures
        by_number(backends).dom().finite(),
        forall|n: u64| #[trigger] by_number(backends).contains_key(n) <==> knows(backends, n),
        forall|n: u64| #[trigger]
            by_number(backends).contains_key(n) ==> by_number(backends)[n].node_id == n
                && backends.contains(by_number(backends)[n]),
    decreases backends.len(),
{
    if backends.len() > 0 {
        let d = backends.drop_last();
        lemma_found_by_number(d);
        let m = by_number(backends);
        assert forall|n: u64| #[trigger] m.contains_key(n) <==> knows(backends, n) by {
            assert(by_number(d).contains_key(n) <==> knows(d, n));
            if knows(d, n) {
                let i = choose|i: int| 0 <= i < d.len() && #[trigger] d[i].node_id == n;
                assert(backends[i].node_id == n);
            }
            assert(backends[backends.len() - 1] == backends.last());
            if knows(backends, n) {
                let i = choose|i: int|
                    0 <= i < backends.len() && #[trigger] backends[i].node_id == n;
                if i < d.len() {
                    assert(d[i].node_id == n);
                }
            }
        }
        assert forall|n: u64| #[trigger] m.contains_key(n) implies m[n].node_id == n
            && backends.contains(m[n]) by {
            if n == backends.last().node_id {
                assert(backends[backends.len() - 1] == m[n]);
            } else {
                assert(by_number(d).contains_key(n));
                let w = d.index_of(m[n]);
                assert(backends[w] == m[n]);
            }
        }
    }
}

/// A pool holds exactly the brokers that were found, one for each number, in the order of
/// their numbers.
pub proof fn law_pools_hold_every_broker_once(found: Seq<Backend>, n: u64)
    ensures
        knows(unique(found), n) <==> knows(found, n),
        forall|i: int| 0 <= i < unique(found).len() ==> found.contains(#[trigger] unique(found)[i]),
        forall|i: int, j: int|
            0 <= i < j < unique(found).len() ==> (#[trigger] unique(found)[i]).node_id < (
            #[trigger] unique(found)[j]).node_id,
{
    let m = by_number(found);
    lemma_found_by_number(found);
    ordered::lemma_has_listing::<u64>(m.dom());
    let l = ordered::listed::<u64>(m.dom());
    let u = unique(found);
    assert(u.len() == l.len());
    assert forall|i: int| 0 <= i < u.len() implies found.contains(#[trigger] u[i]) && u[i].node_id
        == l[i] by {
        assert(l.contains(l[i]));
        assert(m.contains_key(l[i]));
    }
    if knows(u, n) {
        let i = choose|i: int| 0 <= i < u.len() && #[trigger] u[i].node_id == n;
        assert(found.contains(u[i]));
        let w = found.index_of(u[i]);
        assert(found[w].node_id == n);
    }
    if knows(found, n) {
        assert(m.contains_key(n));
        assert(m.dom().contains(n));
        assert(l.contains(n));
        let i = l.index_of(n);
        assert(u[i].node_id == n);
    }
    assert forall|i: int, j: int| 0 <= i < j < u.len() implies (#[trigger] u[i]).node_id < (
    #[trigger] u[j]).node_id by {
        assert(u64::before(l[i], l[j]));
        assert(found.contains(u[i]) && found.contains(u[j]));
    }
}

/// Counts are forgotten only of brokers that are gone and have no connection left.
pub proof fn law_connections_are_remembered(
    active: Map<u64, usize>,
    backends: Seq<Backend>,
    node_id: u64,
)
    ensures
        active_on(kept(active, backends), node_id) == active_on(active, node_id),
        kept(active, backends).contains_key(node_id) ==> active.contains_key(node_id) && (
        active[node_id] > 0 || knows(backends, node_id)),
{
}

/// New brokers take the place of the old ones, at the time of the change, without losing count of
/// their connections.
pub proof fn law_new_brokers_keep_their_connections(found: Vec<Backend>, now: u128, n: u64)
    ensures
        forall|p: &mut BackendPool| #[trigger]
            call_ensures(BackendPool::replace, (p, found, now), ()) ==> {
                &&& knows(final(p).backends@, n) <==> knows(found@, n)
                &&& active_on(final(p).active_connections@, n) == active_on(
                    p.active_connections@,
                    n,
                )
                &&& final(p).updated_at == Some(now)
                &&& final(p).next_tie == p.next_tie
            },
{
    law_pools_hold_every_broker_once(found@, n);
}

/// Brokers are forgotten exactly where they were never found, or longer ago than allowed; their
/// connections are counted on.
pub proof fn law_stale_brokers_are_forgotten(age: u128, now: u128)
    ensures
        forall|p: &mut BackendPool| #[trigger]
            call_ensures(BackendPool::clear_if_stale, (p, age, now), ()) ==> {
                &&& p.updated_at is None ==> final(p).backends@.len() == 0
                &&& p.updated_at is Some && now > p.updated_at->0 + age
                    ==> final(p).backends@.len() == 0
                &&& p.updated_at is Some && now <= p.updated_at->0 + age ==> final(p).backends@
                    == p.backends@
                &&& final(p).active_connections == p.active_connections
                &&& final(p).updated_at == p.updated_at
            },
{
}

/// A lease is of a broker of the pool, which has one connection more from then on; there is none
/// only where the pool is empty.
pub proof fn law_leases_are_of_the_pool(r: Option<Backend>, other: u64)
    ensures
        forall|p: &mut BackendPool| #[trigger]
            call_ensures(BackendPool::lease, (p,), r) ==> {
                &&& r is None <==> p.backends@.len() == 0
                &&& final(p).backends == p.backends
                &&& r is None ==> final(p).active_connections == p.active_connections
                &&& r is Some && active_on(p.active_connections@, r->0.node_id) < usize::MAX
                    ==> active_on(final(p).active_connections@, r->0.node_id) == active_on(
                    p.active_connections@,
                    r->0.node_id,
                ) + 1
                &&& r is Some && other != r->0.node_id ==> active_on(
                    final(p).active_connections@,
                    other,
                ) == active_on(p.active_connections@, other)
            },
{
}

/// A broker that has left the pool is forgotten with its last connection, and
/// one that is in the pool stays counted.
pub proof fn law_brokers_that_left_are_forgotten_with_their_last_connection(node_id: u64)
    ensures
        forall|p: &mut BackendPool| #[trigger]
            call_ensures(BackendPool::release, (p, node_id), ()) ==> {
                let before = p.active_connections@;
                let after = final(p).active_connections@;
                &&& before.contains_key(node_id) && before[node_id] <= 1 && !knows(
                    p.backends@,
                    node_id,
                ) ==> !after.contains_key(node_id)
                &&& before.contains_key(node_id) && (before[node_id] > 1 || knows(
                    p.backends@,
                    node_id,
                )) ==> after.contains_key(node_id)
                &&& before.contains_key(node_id) && before[node_id] > 1 ==> after[node_id]
                    == before[node_id] - 1
                &&& !before.contains_key(node_id) ==> after == before
                &&& forall|other: u64|
                    other != node_id ==> (#[trigger] after.contains_key(other)
                        == before.contains_key(other)) && (before.contains_key(other)
                        ==> after[other] == before[other])
                &&& final(p).backends == p.backends
            },
{
}

/// Brokers are reached at their address and the port of the interface; in the
/// origin an address with colons stands in brackets, where it has none yet.
pub proof fn law_brokers_are_reached_at_their_address(b: &Backend, tcp: String, http: String)
    requires
        call_ensures(Backend::tcp_address, (b,), tcp),
        call_ensures(Backend::http_origin, (b,), http),
    ensures
        ({
            let a = b.broadcast_address@;
            let bare = a.contains(':') && a[0] != '[';
            &&& tcp@ == a + seq![':'] + text::dec(b.tcp_port as nat)
            &&& !bare ==> http@ == "http://"@ + a + seq![':'] + text::dec(b.http_port as nat)
            &&& bare ==> http@ == "http://"@ + seq!['['] + a + seq![']'] + seq![':'] + text::dec(
                b.http_port as nat,
            )
        }),
{
    let a = b.broadcast_address@;
    reveal_strlit(":");
    reveal_strlit("[");
    reveal_strlit("]:");
    reveal_strlit("http://[");
    reveal_strlit("http://");
    assert(":"@ =~= seq![':']);
    assert("]:"@ =~= seq![']'] + seq![':']);
    assert("http://["@ =~= "http://"@ + seq!['[']);
    if a.contains(':') {
        let i = choose|i: int| 0 <= i < a.len() && a[i] == ':';
        assert(a.subrange(i, i + 1) =~= ":"@);
        assert(text::occurs_at(a, ":"@, i));
    }
    if text::has_text(a, ":"@) {
        let i = choose|i: int| #[trigger] text::occurs_at(a, ":"@, i);
        assert(a.subrange(i, i + 1)[0] == a[i]);
        assert(a.contains(':'));
    }
    if a.len() > 0 {
        assert(a.take(1)[0] == a[0]);
        if a[0] == '[' {
            assert(a.take(1) =~= "["@);
        }
    }
    let port = text::dec(b.http_port as nat);
    if a.contains(':') && a[0] != '[' {
        assert(!text::starts(a, "["@));
        assert(http@ =~= "http://"@ + seq!['['] + a + seq![']'] + seq![':'] + port);
    }
}

} // verus!
