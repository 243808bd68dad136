//! Placement of brokers on nodes.
use crate::operator::layout::{self, BrokerView, ClusterLayout};
use crate::text;
use std::collections::BTreeMap;
use vstd::prelude::*;
use vstd::string::*;

verus! {

broadcast use {vstd::std_specs::btree::group_btree_axioms, vstd::laws_cmp::group_laws_cmp};

/// A node that may run a broker.
#[derive(Clone, Debug, PartialEq, Eq)]
pub struct EligibleNode {
    pub name: String,
    pub failure_domain: String,
}

/// The node that a broker is assigned to.
#[derive(Clone, Debug, PartialEq, Eq)]
pub struct BrokerPlacement {
    pub node_name: String,
    pub failure_domain: String,
}

/// A node name with a failure domain.
pub struct SpotView {
    pub node: Seq<char>,
    pub domain: Seq<char>,
}

/// A broker with the spot that it was given.
pub struct PlacedView {
    pub node_id: u64,
    pub spot: SpotView,
}

impl View for EligibleNode {
    type V = SpotView;

    open spec fn view(&self) -> SpotView {
        SpotView { node: self.name@, domain: self.failure_domain@ }
    }
}

impl View for BrokerPlacement {
    type V = SpotView;

    open spec fn view(&self) -> SpotView {
        SpotView { node: self.node_name@, domain: self.failure_domain@ }
    }
}

/// The views of a sequence of nodes.
pub open spec fn node_views(nodes: Seq<EligibleNode>) -> Seq<SpotView> {
    nodes.map_values(|n: EligibleNode| n@)
}

/// The views of the assignments in a map.
pub open spec fn placement_views(m: Map<u64, BrokerPlacement>) -> Map<u64, SpotView> {
    m.map_values(|p: BrokerPlacement| p@)
}

/// Whether a node was given to a broker.
pub open spec fn is_used(placed: Seq<PlacedView>, node: Seq<char>) -> bool {
    exists|i: int| 0 <= i < placed.len() && (#[trigger] placed[i]).spot.node == node
}

/// Whether a broker was given a node.
pub open spec fn is_placed(placed: Seq<PlacedView>, node_id: u64) -> bool {
    exists|i: int| 0 <= i < placed.len() && (#[trigger] placed[i]).node_id == node_id
}

/// How many brokers were placed in a failure domain.
pub open spec fn load(placed: Seq<PlacedView>, domain: Seq<char>) -> nat
    decreases placed.len(),
{
    if placed.len() == 0 {
        0
    } else {
        load(placed.drop_last(), domain) + if placed.last().spot.domain == domain {
            1nat
        } else {
            0nat
        }
    }
}

/// The last node with a name.
pub open spec fn last_named(nodes: Seq<SpotView>, name: Seq<char>) -> Option<int>
    decreases nodes.len(),
{
    if nodes.len() == 0 {
        None
    } else if nodes.last().node == name {
        Some(nodes.len() - 1)
    } else {
        last_named(nodes.drop_last(), name)
    }
}

/// The spot that a broker gets on a node: one of its own where a single node
/// may carry them all.
pub open spec fn spot_on(node: SpotView, node_id: u64, single: bool) -> SpotView {
    SpotView {
        node: node.node,
        domain: if single {
            "virtual-node-"@ + text::dec(node_id as nat)
        } else {
            node.domain
        },
    }
}

/// The placements after a broker was offered the node that it runs on: it keeps
/// that node where it is still eligible and no broker before it has it.
pub open spec fn keep_step(
    placed: Seq<PlacedView>,
    node_id: u64,
    nodes: Seq<SpotView>,
    current: Map<u64, String>,
    single: bool,
) -> Seq<PlacedView> {
    if !current.contains_key(node_id) {
        placed
    } else {
        match last_named(nodes, current[node_id]@) {
            None => placed,
            Some(i) => if !single && is_used(placed, nodes[i].node) {
                placed
            } else {
                placed.push(PlacedView { node_id, spot: spot_on(nodes[i], node_id, single) })
            },
        }
    }
}

/// The placements that brokers keep.
pub open spec fn kept(
    brokers: Seq<BrokerView>,
    nodes: Seq<SpotView>,
    current: Map<u64, String>,
    single: bool,
) -> Seq<PlacedView>
    decreases brokers.len(),
{
    if brokers.len() == 0 {
        Seq::empty()
    } else {
        keep_step(
            kept(brokers.drop_last(), nodes, current, single),
            brokers.last().node_id as u64,
            nodes,
            current,
            single,
        )
    }
}

/// Whether a node may be given to another broker.
pub open spec fn is_free(placed: Seq<PlacedView>, node: SpotView, single: bool) -> bool {
    single || !is_used(placed, node.node)
}

/// Whether `a` is a better choice than `b`: its failure domain carries fewer
/// brokers, or as many and its name stands before.
pub open spec fn better(placed: Seq<PlacedView>, a: SpotView, b: SpotView, single: bool) -> bool {
    let x = if single {
        0
    } else {
        load(placed, a.domain)
    };
    let y = if single {
        0
    } else {
        load(placed, b.domain)
    };
    x < y || (x == y && text::text_lt(a.node, b.node))
}

/// The best free node, the first of equals.
pub open spec fn best_node(placed: Seq<PlacedView>, nodes: Seq<SpotView>, single: bool) -> Option<
    int,
>
    decreases nodes.len(),
{
    if nodes.len() == 0 {
        None
    } else {
        let before = best_node(placed, nodes.drop_last(), single);
        let here = nodes.len() - 1;
        if !is_free(placed, nodes[here], single) {
            before
        } else {
            match before {
                None => Some(here),
                Some(b) => if better(placed, nodes[here], nodes[b], single) {
                    Some(here)
                } else {
                    Some(b)
                },
            }
        }
    }
}

/// The placements after the brokers from `k` on that have none were given the
/// best free nodes, as long as there are any.
pub open spec fn filled(
    placed: Seq<PlacedView>,
    brokers: Seq<BrokerView>,
    k: int,
    nodes: Seq<SpotView>,
    single: bool,
) -> Seq<PlacedView>
    decreases brokers.len() - k,
{
    if k < 0 || k >= brokers.len() {
        placed
    } else {
        let node_id = brokers[k].node_id as u64;
        if is_placed(placed, node_id) {
            filled(placed, brokers, k + 1, nodes, single)
        } else {
            match best_node(placed, nodes, single) {
                None => placed,
                Some(i) => filled(
                    placed.push(PlacedView { node_id, spot: spot_on(nodes[i], node_id, single) }),
                    brokers,
                    k + 1,
                    nodes,
                    single,
                ),
            }
        }
    }
}

/// The placements of the brokers of a layout, in the order they were made.
pub open spec fn placements(
    brokers: Seq<BrokerView>,
    nodes: Seq<SpotView>,
    current: Map<u64, String>,
    single: bool,
) -> Seq<PlacedView> {
    filled(kept(brokers, nodes, current, single), brokers, 0, nodes, single)
}

/// The assignments by node ID; the last one counts.
pub open spec fn placement_map(placed: Seq<PlacedView>) -> Map<u64, SpotView>
    decreases placed.len(),
{
    if placed.len() == 0 {
        Map::empty()
    } else {
        placement_map(placed.drop_last()).insert(placed.last().node_id, placed.last().spot)
    }
}

/// A placement in the making.
struct Placed {
    node_id: u64,
    node_name: String,
    failure_domain: String,
}

impl View for Placed {
    type V = PlacedView;

    closed spec fn view(&self) -> PlacedView {
        PlacedView {
            node_id: self.node_id,
            spot: SpotView { node: self.node_name@, domain: self.failure_domain@ },
        }
    }
}

spec fn placed_views(v: Seq<Placed>) -> Seq<PlacedView> {
    v.map_values(|p: Placed| p@)
}

fn uses(placed: &Vec<Placed>, node: &str) -> (r: bool)
    ensures
        r == is_used(placed_views(placed@), node@),
{
    let mut i: usize = 0;
    while i < placed.len()
        invariant
            i <= placed@.len(),
            forall|j: int| 0 <= j < i ==> (#[trigger] placed_views(placed@)[j]).spot.node != node@,
        decreases placed@.len() - i,
    {
        assert(placed_views(placed@)[i as int] == placed@[i as int]@);
        if text::str_eq(placed[i].node_name.as_str(), node) {
            return true;
        }
        i += 1;
    }
    false
}

fn places(placed: &Vec<Placed>, node_id: u64) -> (r: bool)
    ensures
        r == is_placed(placed_views(placed@), node_id),
{
    let mut i: usize = 0;
    while i < placed.len()
        invariant
            i <= placed@.len(),
            forall|j: int| 0 <= j < i ==> (#[trigger] placed_views(placed@)[j]).node_id != node_id,
        decreases placed@.len() - i,
    {
        assert(placed_views(placed@)[i as int] == placed@[i as int]@);
        if placed[i].node_id == node_id {
            return true;
        }
        i += 1;
    }
    false
}

fn domain_load(placed: &Vec<Placed>, domain: &str) -> (r: usize)
    ensures
        r == load(placed_views(placed@), domain@),
{
    let ghost views = placed_views(placed@);
    let mut count: usize = 0;
    let mut i: usize = 0;
    assert(views.take(0) =~= Seq::<PlacedView>::empty());
    while i < placed.len()
        invariant
            i <= placed@.len(),
            count <= i,
            views == placed_views(placed@),
            count == load(views.take(i as int), domain@),
        decreases placed@.len() - i,
    {
        assert(views[i as int] == placed@[i as int]@);
        assert(views.take(i + 1).drop_last() =~= views.take(i as int));
        assert(views.take(i + 1).last() == views[i as int]);
        if text::str_eq(placed[i].failure_domain.as_str(), domain) {
            count += 1;
        }
        i += 1;
    }
    assert(views.take(placed@.len() as int) =~= views);
    count
}

fn find_named(nodes: &[EligibleNode], name: &str) -> (r: Option<usize>)
    ensures
        match r {
            Some(i) => i < nodes@.len() && last_named(node_views(nodes@), name@) == Some(i as int),
            None => last_named(node_views(nodes@), name@) is None,
        },
{
    let ghost views = node_views(nodes@);
    let mut i: usize = nodes.len();
    assert(views.take(nodes@.len() as int) =~= views);
    while i > 0
        invariant
            i <= nodes@.len(),
            views == node_views(nodes@),
            last_named(views.take(i as int), name@) == last_named(views, name@),
        decreases i,
    {
        assert(views.take(i as int).drop_last() =~= views.take(i - 1));
        assert(views[i - 1] == nodes@[i - 1]@);
        if text::str_eq(nodes[i - 1].name.as_str(), name) {
            return Some(i - 1);
        }
        i -= 1;
    }
    None
}

fn choose_node(placed: &Vec<Placed>, nodes: &[EligibleNode], single: bool) -> (r: Option<usize>)
    ensures
        match r {
            Some(i) => i < nodes@.len() && best_node(
                placed_views(placed@),
                node_views(nodes@),
                single,
            ) == Some(i as int),
            None => best_node(placed_views(placed@), node_views(nodes@), single) is None,
        },
{
    let ghost views = node_views(nodes@);
    let ghost p = placed_views(placed@);
    let mut best: Option<usize> = None;
    let mut i: usize = 0;
    assert(views.take(0) =~= Seq::<SpotView>::empty());
    while i < nodes.len()
        invariant
            i <= nodes@.len(),
            views == node_views(nodes@),
            p == placed_views(placed@),
            match best {
                Some(b) => b < i && best_node(p, views.take(i as int), single) == Some(b as int),
                None => best_node(p, views.take(i as int), single) is None,
            },
        decreases nodes@.len() - i,
    {
        let node = &nodes[i];
        assert(views[i as int] == node@);
        assert(views.take(i + 1).drop_last() =~= views.take(i as int));
        assert(views.take(i + 1)[i as int] == views[i as int]);
        if single || !uses(placed, node.name.as_str()) {
            match best {
                None => {
                    best = Some(i);
                },
                Some(b) => {
                    let other = &nodes[b];
                    assert(views[b as int] == other@);
                    assert(views.take(i + 1)[b as int] == views[b as int]);
                    assert(views.take(i as int)[b as int] == views[b as int]);
                    let x: usize = if single {
                        0
                    } else {
                        domain_load(placed, node.failure_domain.as_str())
                    };
                    let y: usize = if single {
                        0
                    } else {
                        domain_load(placed, other.failure_domain.as_str())
                    };
                    if x < y || (x == y && text::text_before(
                        node.name.as_str(),
                        other.name.as_str(),
                    )) {
                        best = Some(i);
                    }
                },
            }
        }
        i += 1;
    }
    assert(views.take(nodes@.len() as int) =~= views);
    best
}

fn place(node: &EligibleNode, node_id: u64, single: bool) -> (r: Placed)
    ensures
        r@ == (PlacedView { node_id, spot: spot_on(node@, node_id, single) }),
{
    let failure_domain = if single {
        let mut d = "virtual-node-".to_owned();
        d.append(text::decimal(node_id).as_str());
        d
    } else {
        node.failure_domain.clone()
    };
    Placed { node_id, node_name: node.name.clone(), failure_domain }
}

/// Assigns brokers to nodes. A broker keeps the node that it runs on where that
/// node is still eligible; the others go where their failure domain carries
/// the fewest brokers. No node gets two brokers unless a single node may carry
/// them all.
pub fn assign(
    layout: &ClusterLayout,
    nodes: &[EligibleNode],
    current: &BTreeMap<u64, String>,
    allow_single_node: bool,
) -> (r: BTreeMap<u64, BrokerPlacement>)
    ensures
        placement_views(r@) == placement_map(
            placements(
                layout::all_brokers(layout@.cells),
                node_views(nodes@),
                current@,
                allow_single_node,
            ),
        ),
{
    let brokers = layout.brokers();
    let ghost b = layout::broker_views(brokers@);
    let ghost n = node_views(nodes@);
    let mut placed: Vec<Placed> = Vec::new();
    let mut i: usize = 0;
    assert(b.take(0) =~= Seq::<BrokerView>::empty());
    assert(placed_views(placed@) =~= Seq::<PlacedView>::empty());
    while i < brokers.len()
        invariant
            i <= brokers@.len(),
            b == layout::broker_views(brokers@),
            n == node_views(nodes@),
            placed_views(placed@) == kept(b.take(i as int), n, current@, allow_single_node),
        decreases brokers@.len() - i,
    {
        let node_id: u64 = brokers[i].node_id;
        assert(b[i as int] == brokers@[i as int]@);
        assert(b.take(i + 1).drop_last() =~= b.take(i as int));
        assert(b.take(i + 1).last() == b[i as int]);
        let ghost before = placed@;
        if let Some(name) = current.get(&node_id) {
            if let Some(k) = find_named(nodes, name.as_str()) {
                assert(n[k as int] == nodes@[k as int]@);
                if allow_single_node || !uses(&placed, nodes[k].name.as_str()) {
                    placed.push(place(&nodes[k], node_id, allow_single_node));
                    assert(placed_views(placed@) =~= placed_views(before).push(
                        placed@.last()@,
                    ));
                }
            }
        }
        i += 1;
    }
    assert(b.take(brokers@.len() as int) =~= b);
    let ghost total = placements(b, n, current@, allow_single_node);
    let mut k: usize = 0;
    let mut more: bool = true;
    while k < brokers.len() && more
        invariant
            k <= brokers@.len(),
            b == layout::broker_views(brokers@),
            n == node_views(nodes@),
            more ==> total == filled(placed_views(placed@), b, k as int, n, allow_single_node),
            !more ==> total == placed_views(placed@),
        decreases brokers@.len() - k,
    {
        let node_id: u64 = brokers[k].node_id;
        assert(b[k as int] == brokers@[k as int]@);
        if !places(&placed, node_id) {
            match choose_node(&placed, nodes, allow_single_node) {
                None => {
                    more = false;
                },
                Some(j) => {
                    let ghost before = placed@;
                    assert(n[j as int] == nodes@[j as int]@);
                    placed.push(place(&nodes[j], node_id, allow_single_node));
                    assert(placed_views(placed@) =~= placed_views(before).push(
                        placed@.last()@,
                    ));
                },
            }
        }
        k += 1;
    }
    let mut result: BTreeMap<u64, BrokerPlacement> = BTreeMap::new();
    let mut m: usize = 0;
    let ghost p = placed_views(placed@);
    assert(p.take(0) =~= Seq::<PlacedView>::empty());
    assert(placement_views(result@) =~= Map::<u64, SpotView>::empty());
    while m < placed.len()
        invariant
            m <= placed@.len(),
            p == placed_views(placed@),
            placement_views(result@) == placement_map(p.take(m as int)),
        decreases placed@.len() - m,
    {
        assert(p[m as int] == placed@[m as int]@);
        assert(p.take(m + 1).drop_last() =~= p.take(m as int));
        assert(p.take(m + 1).last() == p[m as int]);
        let spot = BrokerPlacement {
            node_name: placed[m].node_name.clone(),
            failure_domain: placed[m].failure_domain.clone(),
        };
        let ghost before = result@;
        let ghost v = spot@;
        result.insert(placed[m].node_id, spot);
        assert(placement_views(result@) =~= placement_views(before).insert(
            placed@[m as int].node_id,
            v,
        ));
        m += 1;
    }
    assert(p.take(placed@.len() as int) =~= p);
    result
}


/// Whether no node was given to two brokers.
pub open spec fn nodes_distinct(placed: Seq<PlacedView>) -> bool {
    forall|i: int, j: int|
        0 <= i < j < placed.len() ==> (#[trigger] placed[i]).spot.node != (
        #[trigger] placed[j]).spot.node
}

/// Whether every node given is one of the eligible nodes, in its failure domain.
pub open spec fn nodes_eligible(placed: Seq<PlacedView>, nodes: Seq<SpotView>, single: bool) -> bool {
    forall|i: int|
        0 <= i < placed.len() ==> exists|k: int|
            0 <= k < nodes.len() && (#[trigger] placed[i]).spot == spot_on(
                #[trigger] nodes[k],
                placed[i].node_id,
                single,
            )
}

proof fn lemma_last_named(nodes: Seq<SpotView>, name: Seq<char>)
    ensures
        match last_named(nodes, name) {
            Some(i) => 0 <= i < nodes.len() && nodes[i].node == name,
            None => forall|i: int| 0 <= i < nodes.len() ==> (#[trigger] nodes[i]).node != name,
        },
    decreases nodes.len(),
{
    if nodes.len() > 0 && nodes.last().node != name {
        lemma_last_named(nodes.drop_last(), name);
        assert forall|i: int|
            last_named(nodes, name) is None && 0 <= i < nodes.len() implies (
        #[trigger] nodes[i]).node != name by {
            if i < nodes.len() - 1 {
                assert(nodes.drop_last()[i] == nodes[i]);
            }
        }
    }
}

/// The chosen node is free, and no free node is a better choice.
pub proof fn lemma_best_node(placed: Seq<PlacedView>, nodes: Seq<SpotView>, single: bool)
    ensures
        match best_node(placed, nodes, single) {
            Some(b) => {
                &&& 0 <= b < nodes.len()
                &&& is_free(placed, nodes[b], single)
                &&& forall|i: int|
                    0 <= i < nodes.len() && is_free(placed, #[trigger] nodes[i], single)
                        ==> !better(placed, nodes[i], nodes[b], single)
            },
            None => forall|i: int|
                0 <= i < nodes.len() ==> !is_free(placed, #[trigger] nodes[i], single),
        },
    decreases nodes.len(),
{
    if nodes.len() > 0 {
        let d = nodes.drop_last();
        lemma_best_node(placed, d, single);
        let here = nodes.len() - 1;
        match best_node(placed, nodes, single) {
            Some(b) => {
                text::lemma_text_lt_irreflexive(nodes[b].node);
                assert forall|i: int|
                    0 <= i < nodes.len() && is_free(
                        placed,
                        #[trigger] nodes[i],
                        single,
                    ) implies !better(placed, nodes[i], nodes[b], single) by {
                    if i < here {
                        assert(d[i] == nodes[i]);
                        match best_node(placed, d, single) {
                            Some(c) => {
                                assert(d[c] == nodes[c]);
                                if b == here && better(placed, nodes[i], nodes[b], single) {
                                    if text::text_lt(nodes[i].node, nodes[b].node)
                                        && text::text_lt(nodes[b].node, nodes[c].node) {
                                        text::lemma_text_lt_transitive(
                                            nodes[i].node,
                                            nodes[b].node,
                                            nodes[c].node,
                                        );
                                    }
                                    assert(better(placed, nodes[i], nodes[c], single));
                                }
                            },
                            None => {},
                        }
                    }
                }
            },
            None => {
                assert forall|i: int| 0 <= i < nodes.len() implies !is_free(
                    placed,
                    #[trigger] nodes[i],
                    single,
                ) by {
                    if i < here {
                        assert(d[i] == nodes[i]);
                    }
                }
            },
        }
    }
}

proof fn lemma_push_placement(
    placed: Seq<PlacedView>,
    nodes: Seq<SpotView>,
    k: int,
    node_id: u64,
    single: bool,
)
    requires
        0 <= k < nodes.len(),
        nodes_eligible(placed, nodes, single),
        !single ==> nodes_distinct(placed) && !is_used(placed, nodes[k].node),
    ensures
        ({
            let next = placed.push(PlacedView { node_id, spot: spot_on(nodes[k], node_id, single) });
            &&& nodes_eligible(next, nodes, single)
            &&& !single ==> nodes_distinct(next)
        }),
{
    let next = placed.push(PlacedView { node_id, spot: spot_on(nodes[k], node_id, single) });
    assert forall|i: int| 0 <= i < next.len() implies exists|q: int|
        0 <= q < nodes.len() && (#[trigger] next[i]).spot == spot_on(
            #[trigger] nodes[q],
            next[i].node_id,
            single,
        ) by {
        if i < placed.len() {
            assert(next[i] == placed[i]);
            let q = choose|q: int|
                0 <= q < nodes.len() && placed[i].spot == spot_on(
                    #[trigger] nodes[q],
                    placed[i].node_id,
                    single,
                );
            assert(next[i].spot == spot_on(nodes[q], next[i].node_id, single));
        } else {
            assert(next[i].spot == spot_on(nodes[k], next[i].node_id, single));
        }
    }
    if !single {
        assert forall|i: int, j: int| 0 <= i < j < next.len() implies (
        #[trigger] next[i]).spot.node != (#[trigger] next[j]).spot.node by {
            assert(next[i] == placed[i]);
            if j < placed.len() {
                assert(next[j] == placed[j]);
            }
        }
    }
}

proof fn lemma_kept(
    brokers: Seq<BrokerView>,
    nodes: Seq<SpotView>,
    current: Map<u64, String>,
    single: bool,
)
    ensures
        nodes_eligible(kept(brokers, nodes, current, single), nodes, single),
        !single ==> nodes_distinct(kept(brokers, nodes, current, single)),
    decreases brokers.len(),
{
    if brokers.len() > 0 {
        lemma_kept(brokers.drop_last(), nodes, current, single);
        let placed = kept(brokers.drop_last(), nodes, current, single);
        let node_id = brokers.last().node_id as u64;
        if current.contains_key(node_id) {
            lemma_last_named(nodes, current[node_id]@);
            match last_named(nodes, current[node_id]@) {
                Some(i) => {
                    if single || !is_used(placed, nodes[i].node) {
                        lemma_push_placement(placed, nodes, i, node_id, single);
                    }
                },
                None => {},
            }
        }
    }
}

proof fn lemma_filled(
    placed: Seq<PlacedView>,
    brokers: Seq<BrokerView>,
    k: int,
    nodes: Seq<SpotView>,
    single: bool,
)
    requires
        0 <= k,
        nodes_eligible(placed, nodes, single),
        !single ==> nodes_distinct(placed),
    ensures
        ({
            let all = filled(placed, brokers, k, nodes, single);
            &&& nodes_eligible(all, nodes, single)
            &&& !single ==> nodes_distinct(all)
            &&& placed.len() <= all.len()
            &&& all.take(placed.len() as int) == placed
            &&& single && nodes.len() > 0 ==> forall|b: int|
                k <= b < brokers.len() ==> is_placed(all, (#[trigger] brokers[b]).node_id as u64)
        }),
    decreases brokers.len() - k,
{
    let all = filled(placed, brokers, k, nodes, single);
    if k < brokers.len() {
        let node_id = brokers[k].node_id as u64;
        if is_placed(placed, node_id) {
            lemma_filled(placed, brokers, k + 1, nodes, single);
            let w = choose|w: int| 0 <= w < placed.len() && (#[trigger] placed[w]).node_id == node_id;
            assert(all.take(placed.len() as int)[w] == all[w]);
            assert(all[w].node_id == node_id);
        } else {
            lemma_best_node(placed, nodes, single);
            match best_node(placed, nodes, single) {
                Some(i) => {
                    lemma_push_placement(placed, nodes, i, node_id, single);
                    let next = placed.push(
                        PlacedView { node_id, spot: spot_on(nodes[i], node_id, single) },
                    );
                    lemma_filled(next, brokers, k + 1, nodes, single);
                    assert(all.take(placed.len() as int) =~= all.take(next.len() as int).take(
                        placed.len() as int,
                    ));
                    assert(next.take(placed.len() as int) =~= placed);
                    assert(all.take(next.len() as int)[placed.len() as int]
                        == all[placed.len() as int]);
                    assert(all[placed.len() as int].node_id == node_id);
                },
                None => {
                    assert(all.take(placed.len() as int) =~= placed);
                    if single && nodes.len() > 0 {
                        assert(is_free(placed, nodes[0], single));
                    }
                },
            }
        }
    } else {
        assert(all.take(placed.len() as int) =~= placed);
    }
}

/// No node gets two brokers, unless a single node may carry them all.
pub proof fn law_no_node_gets_two_brokers(
    brokers: Seq<BrokerView>,
    nodes: Seq<SpotView>,
    current: Map<u64, String>,
)
    ensures
        nodes_distinct(placements(brokers, nodes, current, false)),
{
    lemma_kept(brokers, nodes, current, false);
    lemma_filled(kept(brokers, nodes, current, false), brokers, 0, nodes, false);
}

/// Every broker is placed on an eligible node and reports the failure domain of
/// that node, or a domain of its own where a single node may carry them all.
pub proof fn law_placements_are_eligible(
    brokers: Seq<BrokerView>,
    nodes: Seq<SpotView>,
    current: Map<u64, String>,
    single: bool,
)
    ensures
        nodes_eligible(placements(brokers, nodes, current, single), nodes, single),
{
    lemma_kept(brokers, nodes, current, single);
    lemma_filled(kept(brokers, nodes, current, single), brokers, 0, nodes, single);
}

/// Filling the gaps leaves the placements that brokers keep as they are.
pub proof fn law_kept_placements_stay(
    brokers: Seq<BrokerView>,
    nodes: Seq<SpotView>,
    current: Map<u64, String>,
    single: bool,
)
    ensures
        ({
            let before = kept(brokers, nodes, current, single);
            let all = placements(brokers, nodes, current, single);
            before.len() <= all.len() && all.take(before.len() as int) == before
        }),
{
    lemma_kept(brokers, nodes, current, single);
    lemma_filled(kept(brokers, nodes, current, single), brokers, 0, nodes, single);
}

/// Where a single node may carry all brokers and there is a node, every broker
/// is placed.
pub proof fn law_single_node_carries_every_broker(
    brokers: Seq<BrokerView>,
    nodes: Seq<SpotView>,
    current: Map<u64, String>,
    b: int,
)
    requires
        nodes.len() > 0,
        0 <= b < brokers.len(),
    ensures
        is_placed(placements(brokers, nodes, current, true), brokers[b].node_id as u64),
{
    lemma_kept(brokers, nodes, current, true);
    lemma_filled(kept(brokers, nodes, current, true), brokers, 0, nodes, true);
}

/// A broker that has no place is put on a free node whose failure domain has the fewest brokers,
/// and of those on the first by name.
pub proof fn law_brokers_are_spread_over_failure_domains(
    placed: Seq<PlacedView>,
    nodes: Seq<SpotView>,
    i: int,
)
    requires
        0 <= i < nodes.len(),
        !is_used(placed, nodes[i].node),
    ensures
        best_node(placed, nodes, false) is Some,
        ({
            let b = nodes[best_node(placed, nodes, false)->0];
            &&& !is_used(placed, b.node)
            &&& load(placed, b.domain) <= load(placed, nodes[i].domain)
            &&& load(placed, b.domain) == load(placed, nodes[i].domain) ==> !text::text_lt(
                nodes[i].node,
                b.node,
            )
        }),
{
    lemma_best_node(placed, nodes, false);
    assert(is_free(placed, nodes[i], false));
}

proof fn lemma_load(placed: Seq<PlacedView>, domain: Seq<char>)
    ensures
        load(placed, domain) == placed.filter(|p: PlacedView| p.spot.domain == domain).len(),
    decreases placed.len(),
{
    reveal(Seq::filter);
    if placed.len() > 0 {
        lemma_load(placed.drop_last(), domain);
    }
}

/// The brokers of a failure domain are counted one by one.
pub proof fn law_failure_domains_are_counted(placed: Seq<PlacedView>, domain: Seq<char>)
    ensures
        load(placed, domain) == placed.filter(|p: PlacedView| p.spot.domain == domain).len(),
{
    lemma_load(placed, domain);
}

proof fn lemma_kept_places(
    brokers: Seq<BrokerView>,
    nodes: Seq<SpotView>,
    current: Map<u64, String>,
    single: bool,
    i: int,
)
    requires
        0 <= i < kept(brokers, nodes, current, single).len(),
    ensures
        ({
            let p = kept(brokers, nodes, current, single)[i];
            current.contains_key(p.node_id) && p.spot.node == current[p.node_id]@
        }),
    decreases brokers.len(),
{
    if brokers.len() > 0 {
        let d = brokers.drop_last();
        let before = kept(d, nodes, current, single);
        let id = brokers.last().node_id as u64;
        if i < before.len() {
            lemma_kept_places(d, nodes, current, single, i);
        } else if current.contains_key(id) {
            lemma_last_named(nodes, current[id]@);
        }
    }
}

/// A broker that keeps its place keeps the node that it is on.
pub proof fn law_kept_brokers_stay_on_their_node(
    brokers: Seq<BrokerView>,
    nodes: Seq<SpotView>,
    current: Map<u64, String>,
    single: bool,
    i: int,
)
    requires
        0 <= i < kept(brokers, nodes, current, single).len(),
    ensures
        ({
            let p = placements(brokers, nodes, current, single)[i];
            current.contains_key(p.node_id) && p.spot.node == current[p.node_id]@
        }),
{
    lemma_kept_places(brokers, nodes, current, single, i);
    law_kept_placements_stay(brokers, nodes, current, single);
    let before = kept(brokers, nodes, current, single);
    let all = placements(brokers, nodes, current, single);
    assert(all.take(before.len() as int)[i] == all[i]);
}

/// The first broker keeps its node wherever that is still eligible.
pub proof fn law_eligible_nodes_are_kept(
    brokers: Seq<BrokerView>,
    nodes: Seq<SpotView>,
    current: Map<u64, String>,
    single: bool,
    b: int,
    n: int,
)
    requires
        0 <= b < brokers.len(),
        0 <= n < nodes.len(),
        current.contains_key(brokers[b].node_id as u64),
        current[brokers[b].node_id as u64]@ == nodes[n].node,
        single || !is_used(kept(brokers.take(b), nodes, current, single), nodes[n].node),
    ensures
        is_placed(kept(brokers, nodes, current, single), brokers[b].node_id as u64),
    decreases brokers.len(),
{
    let d = brokers.drop_last();
    let last = brokers.last().node_id as u64;
    let before = kept(d, nodes, current, single);
    let all = kept(brokers, nodes, current, single);
    if b < d.len() {
        assert(d.take(b) =~= brokers.take(b));
        law_eligible_nodes_are_kept(d, nodes, current, single, b, n);
        let w = choose|w: int|
            0 <= w < before.len() && (#[trigger] before[w]).node_id == brokers[b].node_id as u64;
        assert(all[w].node_id == brokers[b].node_id as u64);
    } else {
        assert(d =~= brokers.take(b));
        lemma_last_named(nodes, nodes[n].node);
        lemma_named_is_found(nodes, n);
        let i = last_named(nodes, nodes[n].node)->0;
        assert(all[all.len() - 1].node_id == last);
    }
}

proof fn lemma_named_is_found(nodes: Seq<SpotView>, n: int)
    requires
        0 <= n < nodes.len(),
    ensures
        last_named(nodes, nodes[n].node) is Some,
    decreases nodes.len(),
{
    if nodes.last().node != nodes[n].node {
        assert(n < nodes.len() - 1);
        lemma_named_is_found(nodes.drop_last(), n);
    }
}

proof fn lemma_filled_all(
    placed: Seq<PlacedView>,
    brokers: Seq<BrokerView>,
    k: int,
    nodes: Seq<SpotView>,
    single: bool,
    b: int,
)
    requires
        0 <= k <= b < brokers.len(),
    ensures
        ({
            let all = filled(placed, brokers, k, nodes, single);
            is_placed(all, brokers[b].node_id as u64) || forall|i: int|
                0 <= i < nodes.len() ==> !is_free(all, #[trigger] nodes[i], single)
        }),
        ({
            let all = filled(placed, brokers, k, nodes, single);
            all.len() >= placed.len() && all.take(placed.len() as int) == placed
        }),
    decreases brokers.len() - k,
{
    let id = brokers[k].node_id as u64;
    let all = filled(placed, brokers, k, nodes, single);
    lemma_best_node(placed, nodes, single);
    if is_placed(placed, id) {
        if k < b {
            lemma_filled_all(placed, brokers, k + 1, nodes, single, b);
        } else {
            lemma_filled_keeps(placed, brokers, k + 1, nodes, single);
            let w = choose|w: int| 0 <= w < placed.len() && (#[trigger] placed[w]).node_id == id;
            assert(all.take(placed.len() as int)[w] == all[w]);
            assert(all[w].node_id == id);
        }
    } else if best_node(placed, nodes, single) is Some {
        let n = best_node(placed, nodes, single)->0;
        let next = placed.push(PlacedView { node_id: id, spot: spot_on(nodes[n], id, single) });
        lemma_filled_keeps(next, brokers, k + 1, nodes, single);
        assert(all.take(next.len() as int)[placed.len() as int] == all[placed.len() as int]);
        assert(all.take(placed.len() as int) =~= placed) by {
            assert(forall|j: int| 0 <= j < placed.len() ==> all[j] == #[trigger] all.take(
                next.len() as int,
            )[j]);
        }
        if k < b {
            lemma_filled_all(next, brokers, k + 1, nodes, single, b);
        } else {
            assert(all[placed.len() as int].node_id == id);
        }
    } else {
        assert(all.take(placed.len() as int) =~= placed);
    }
}

proof fn lemma_filled_keeps(
    placed: Seq<PlacedView>,
    brokers: Seq<BrokerView>,
    k: int,
    nodes: Seq<SpotView>,
    single: bool,
)
    requires
        0 <= k,
    ensures
        ({
            let all = filled(placed, brokers, k, nodes, single);
            all.len() >= placed.len() && all.take(placed.len() as int) == placed
        }),
    decreases brokers.len() - k,
{
    let all = filled(placed, brokers, k, nodes, single);
    assert(placed.take(placed.len() as int) =~= placed);
    if k < brokers.len() {
        let id = brokers[k].node_id as u64;
        if is_placed(placed, id) {
            lemma_filled_keeps(placed, brokers, k + 1, nodes, single);
        } else if best_node(placed, nodes, single) is Some {
            let n = best_node(placed, nodes, single)->0;
            let next = placed.push(PlacedView { node_id: id, spot: spot_on(nodes[n], id, single) });
            lemma_filled_keeps(next, brokers, k + 1, nodes, single);
            assert(all.take(placed.len() as int) =~= placed) by {
                assert(forall|j: int| 0 <= j < placed.len() ==> all[j] == #[trigger] all.take(
                    next.len() as int,
                )[j]);
            }
        }
    }
}

/// A broker is left without a place only where no node is free.
pub proof fn law_brokers_are_placed_while_nodes_are_free(
    brokers: Seq<BrokerView>,
    nodes: Seq<SpotView>,
    current: Map<u64, String>,
    single: bool,
    b: int,
    i: int,
)
    requires
        0 <= b < brokers.len(),
        0 <= i < nodes.len(),
    ensures
        ({
            let all = placements(brokers, nodes, current, single);
            is_placed(all, brokers[b].node_id as u64) || (!single && is_used(all, nodes[i].node))
        }),
{
    let before = kept(brokers, nodes, current, single);
    lemma_filled_all(before, brokers, 0, nodes, single, b);
    let all = placements(brokers, nodes, current, single);
    if !is_placed(all, brokers[b].node_id as u64) {
        assert(!is_free(all, nodes[i], single));
    }
}

/// A node gives its name and its failure domain; a single node stands for many, each a failure
/// domain of its own.
pub proof fn law_spots_are_on_their_node(node: SpotView, a: u64, b: u64)
    ensures
        spot_on(node, a, false) == node,
        spot_on(node, a, true).node == node.node,
        spot_on(node, a, true).domain == "virtual-node-"@ + text::dec(a as nat),
{
}

} // verus!
