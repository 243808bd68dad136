//! The layout of a cluster: which brokers exist, in which cells, by what names.
use crate::operator::cluster::CellPolicy;
use crate::text;
use vstd::prelude::*;
use vstd::string::*;

verus! {

/// The cells of a cluster, and the nodes that wait for a cell.
#[derive(Debug, PartialEq, Eq)]
pub struct ClusterLayout {
    pub cells: Vec<CellPlan>,
    pub pending_nodes: u16,
}

/// One cell with its brokers.
#[derive(Debug, PartialEq, Eq)]
pub struct CellPlan {
    pub id: u64,
    pub brokers: Vec<BrokerPlan>,
}

/// One broker with the names of its resources.
#[derive(Clone, Debug, PartialEq, Eq)]
pub struct BrokerPlan {
    pub node_id: u64,
    pub cell_id: u64,
    pub ordinal: u8,
    pub stateful_set: String,
    pub pod_name: String,
    pub config_map: String,
    pub tls_secret: String,
    pub headless_service: String,
}

/// `ClusterLayout` as values.
pub struct LayoutView {
    pub cells: Seq<CellView>,
    pub pending_nodes: nat,
}

/// `CellPlan` as values.
pub struct CellView {
    pub id: nat,
    pub brokers: Seq<BrokerView>,
}

/// `BrokerPlan` as values.
pub struct BrokerView {
    pub node_id: nat,
    pub cell_id: nat,
    pub ordinal: nat,
    pub stateful_set: Seq<char>,
    pub pod_name: Seq<char>,
    pub config_map: Seq<char>,
    pub tls_secret: Seq<char>,
    pub headless_service: Seq<char>,
}

impl View for BrokerPlan {
    type V = BrokerView;

    open spec fn view(&self) -> BrokerView {
        BrokerView {
            node_id: self.node_id as nat,
            cell_id: self.cell_id as nat,
            ordinal: self.ordinal as nat,
            stateful_set: self.stateful_set@,
            pod_name: self.pod_name@,
            config_map: self.config_map@,
            tls_secret: self.tls_secret@,
            headless_service: self.headless_service@,
        }
    }
}

impl View for CellPlan {
    type V = CellView;

    open spec fn view(&self) -> CellView {
        CellView {
            id: self.id as nat,
            brokers: self.brokers@.map_values(|b: BrokerPlan| b@),
        }
    }
}

impl View for ClusterLayout {
    type V = LayoutView;

    open spec fn view(&self) -> LayoutView {
        LayoutView {
            cells: self.cells@.map_values(|c: CellPlan| c@),
            pending_nodes: self.pending_nodes as nat,
        }
    }
}

/// The name that identifies a broker.
pub open spec fn identity(cluster: Seq<char>, cell: nat, ordinal: nat) -> Seq<char> {
    cluster + "-c"@ + text::dec(cell) + "-n"@ + text::dec(ordinal + 1)
}

/// The broker at a place of a cell.
pub open spec fn broker_at(cluster: Seq<char>, cell: nat, ordinal: nat, node: nat) -> BrokerView {
    let id = identity(cluster, cell, ordinal);
    BrokerView {
        node_id: node,
        cell_id: cell,
        ordinal,
        stateful_set: id,
        pod_name: id + "-0"@,
        config_map: id + "-config"@,
        tls_secret: id + "-tls"@,
        headless_service: cluster + "-cell-"@ + text::dec(cell),
    }
}

/// Whether the nodes beyond the full cells make a cell of their own.
pub open spec fn remainder_is_cell(requested: nat, min: nat, max: nat) -> bool {
    requested % max >= min
}

/// How many cells the requested nodes make.
pub open spec fn cell_count(requested: nat, min: nat, max: nat) -> nat {
    requested / max + if remainder_is_cell(requested, min, max) {
        1nat
    } else {
        0nat
    }
}

/// How many brokers a cell has: full cells first, then the remainder.
pub open spec fn cell_size(requested: nat, max: nat, index: int) -> nat {
    if index < requested / max {
        max
    } else {
        requested % max
    }
}

/// A cell of the planned layout.
pub open spec fn planned_cell(cluster: Seq<char>, requested: nat, max: nat, index: int) -> CellView {
    CellView {
        id: (index + 1) as nat,
        brokers: Seq::new(
            cell_size(requested, max, index),
            |j: int|
                broker_at(cluster, (index + 1) as nat, j as nat, (index * max + j + 1) as nat),
        ),
    }
}

/// The planned layout: as many full cells as the nodes make, then one cell of
/// the rest where it is large enough; smaller rests stay pending.
pub open spec fn planned(cluster: Seq<char>, requested: nat, min: nat, max: nat) -> LayoutView {
    if requested < min {
        LayoutView { cells: Seq::empty(), pending_nodes: requested }
    } else {
        LayoutView {
            cells: Seq::new(
                cell_count(requested, min, max),
                |i: int| planned_cell(cluster, requested, max, i),
            ),
            pending_nodes: if remainder_is_cell(requested, min, max) {
                0
            } else {
                requested % max
            },
        }
    }
}

/// All brokers, cell by cell.
pub open spec fn all_brokers(cells: Seq<CellView>) -> Seq<BrokerView>
    decreases cells.len(),
{
    if cells.len() == 0 {
        Seq::empty()
    } else {
        all_brokers(cells.drop_last()) + cells.last().brokers
    }
}

/// The position of the first broker with a node ID.
pub open spec fn first_broker(brokers: Seq<BrokerView>, node_id: nat) -> Option<int>
    decreases brokers.len(),
{
    if brokers.len() == 0 {
        None
    } else {
        match first_broker(brokers.drop_last(), node_id) {
            Some(i) => Some(i),
            None => if brokers.last().node_id == node_id {
                Some(brokers.len() - 1)
            } else {
                None
            },
        }
    }
}

fn plan_broker(cluster_name: &str, cell_id: u64, ordinal: u8, node_id: u64) -> (r: BrokerPlan)
    ensures
        r@ == broker_at(cluster_name@, cell_id as nat, ordinal as nat, node_id as nat),
{
    let mut identity = cluster_name.to_owned();
    identity.append("-c");
    identity.append(text::decimal(cell_id).as_str());
    identity.append("-n");
    identity.append(text::decimal(ordinal as u64 + 1).as_str());
    let mut headless_service = cluster_name.to_owned();
    headless_service.append("-cell-");
    headless_service.append(text::decimal(cell_id).as_str());
    let mut pod_name = identity.clone();
    pod_name.append("-0");
    let mut config_map = identity.clone();
    config_map.append("-config");
    let mut tls_secret = identity.clone();
    tls_secret.append("-tls");
    BrokerPlan {
        node_id,
        cell_id,
        ordinal,
        stateful_set: identity,
        pod_name,
        config_map,
        tls_secret,
        headless_service,
    }
}

/// Plans the cells of a cluster for a number of nodes.
pub fn plan(cluster_name: &str, requested: u16, policy: &CellPolicy) -> (r: ClusterLayout)
    requires
        requested >= policy.min_nodes ==> policy.max_nodes > 0,
    ensures
        r@ == planned(
            cluster_name@,
            requested as nat,
            policy.min_nodes as nat,
            policy.max_nodes as nat,
        ),
{
    let minimum: u16 = policy.min_nodes as u16;
    let maximum: u16 = policy.max_nodes as u16;
    if requested < minimum {
        let r = ClusterLayout { cells: Vec::new(), pending_nodes: requested };
        assert(r@.cells =~= Seq::<CellView>::empty());
        return r;
    }
    let full_cells: u16 = requested / maximum;
    let remainder: u16 = requested % maximum;
    let active_remainder: bool = remainder >= minimum;
    let count: usize = if active_remainder {
        full_cells as usize + 1
    } else {
        full_cells as usize
    };
    proof {
        let a = requested as int;
        let b = maximum as int;
        vstd::arithmetic::div_mod::lemma_fundamental_div_mod(a, b);
        assert(b * (a / b) <= a);
        assert((a / b) * b <= a) by (nonlinear_arith)
            requires
                b * (a / b) <= a,
        ;
    }
    let mut cells: Vec<CellPlan> = Vec::new();
    let mut index: usize = 0;
    let ghost target = Seq::new(
        cell_count(requested as nat, minimum as nat, maximum as nat),
        |i: int| planned_cell(cluster_name@, requested as nat, maximum as nat, i),
    );
    while index < count
        invariant
            index <= count,
            count == cell_count(requested as nat, minimum as nat, maximum as nat),
            count <= full_cells + 1,
            full_cells == requested / maximum,
            remainder == requested % maximum,
            0 < maximum <= 255,
            full_cells * maximum <= requested,
            cells@.len() == index,
            forall|i: int|
                0 <= i < index ==> (#[trigger] cells@[i])@ == planned_cell(
                    cluster_name@,
                    requested as nat,
                    maximum as nat,
                    i,
                ),
        decreases count - index,
    {
        let size: u16 = if index < full_cells as usize {
            maximum
        } else {
            remainder
        };
        proof {
            assert(index * maximum <= full_cells * maximum) by (nonlinear_arith)
                requires
                    index <= full_cells,
                    maximum > 0,
            ;
        }
        let base: u64 = (index as u64) * (maximum as u64);
        let mut brokers: Vec<BrokerPlan> = Vec::new();
        let mut ordinal: u16 = 0;
        while ordinal < size
            invariant
                ordinal <= size <= 255,
                index <= 0x1_0000,
                base == index * maximum,
                base <= 0xffff,
                brokers@.len() == ordinal,
                forall|j: int|
                    0 <= j < ordinal ==> (#[trigger] brokers@[j])@ == broker_at(
                        cluster_name@,
                        (index + 1) as nat,
                        j as nat,
                        (index * maximum + j + 1) as nat,
                    ),
            decreases size - ordinal,
        {
            let broker = plan_broker(
                cluster_name,
                index as u64 + 1,
                ordinal as u8,
                base + ordinal as u64 + 1,
            );
            brokers.push(broker);
            ordinal += 1;
        }
        let cell = CellPlan { id: index as u64 + 1, brokers };
        assert(cell@.brokers =~= planned_cell(
            cluster_name@,
            requested as nat,
            maximum as nat,
            index as int,
        ).brokers);
        cells.push(cell);
        index += 1;
    }
    let pending_nodes: u16 = if active_remainder {
        0
    } else {
        remainder
    };
    let r = ClusterLayout { cells, pending_nodes };
    assert(r@.cells =~= target);
    r
}

impl BrokerPlan {
    /// A copy of the plan.
    pub fn duplicate(&self) -> (r: Self)
        ensures
            r == *self,
    {
        BrokerPlan {
            node_id: self.node_id,
            cell_id: self.cell_id,
            ordinal: self.ordinal,
            stateful_set: self.stateful_set.clone(),
            pod_name: self.pod_name.clone(),
            config_map: self.config_map.clone(),
            tls_secret: self.tls_secret.clone(),
            headless_service: self.headless_service.clone(),
        }
    }
}

/// The views of a sequence of brokers.
pub open spec fn broker_views(v: Seq<&BrokerPlan>) -> Seq<BrokerView> {
    v.map_values(|b: &BrokerPlan| b@)
}

impl ClusterLayout {
    /// All brokers, cell by cell.
    pub fn brokers(&self) -> (r: Vec<&BrokerPlan>)
        ensures
            broker_views(r@) == all_brokers(self@.cells),
    {
        let mut out: Vec<&BrokerPlan> = Vec::new();
        let mut i: usize = 0;
        let ghost cells = self@.cells;
        assert(cells.take(0) =~= Seq::<CellView>::empty());
        assert(broker_views(out@) =~= Seq::<BrokerView>::empty());
        while i < self.cells.len()
            invariant
                i <= self.cells@.len(),
                cells == self@.cells,
                broker_views(out@) == all_brokers(cells.take(i as int)),
            decreases self.cells@.len() - i,
        {
            let cell = &self.cells[i];
            assert(cells[i as int] == cell@);
            let ghost before = broker_views(out@);
            let ghost here = cell@.brokers;
            let mut j: usize = 0;
            assert(before + here.take(0) =~= before);
            while j < cell.brokers.len()
                invariant
                    j <= cell.brokers@.len(),
                    here == cell@.brokers,
                    broker_views(out@) == before + here.take(j as int),
                decreases cell.brokers@.len() - j,
            {
                let ghost o = out@;
                out.push(&cell.brokers[j]);
                assert(here[j as int] == cell.brokers@[j as int]@);
                assert(broker_views(out@) =~= broker_views(o).push(here[j as int]));
                assert(before + here.take(j + 1) =~= (before + here.take(j as int)).push(
                    here[j as int],
                ));
                j += 1;
            }
            assert(here.take(cell.brokers@.len() as int) =~= here);
            assert(cells.take(i + 1).drop_last() =~= cells.take(i as int));
            assert(cells.take(i + 1).last() == cells[i as int]);
            i += 1;
        }
        assert(cells.take(self.cells@.len() as int) =~= cells);
        out
    }

    /// How many brokers the layout has.
    pub fn active_replicas(&self) -> (r: u16)
        requires
            all_brokers(self@.cells).len() <= u16::MAX,
        ensures
            r == all_brokers(self@.cells).len(),
    {
        let all = self.brokers();
        assert(broker_views(all@).len() == all@.len());
        all.len() as u16
    }

    /// The first broker with a node ID.
    pub fn broker(&self, node_id: u64) -> (r: Option<&BrokerPlan>)
        ensures
            match r {
                Some(b) => first_broker(all_brokers(self@.cells), node_id as nat) matches Some(i)
                    && b@ == all_brokers(self@.cells)[i],
                None => first_broker(all_brokers(self@.cells), node_id as nat) is None,
            },
    {
        let all = self.brokers();
        let ghost views = broker_views(all@);
        let mut i: usize = 0;
        while i < all.len()
            invariant
                i <= all@.len(),
                views == broker_views(all@),
                views == all_brokers(self@.cells),
                forall|j: int| 0 <= j < i ==> (#[trigger] views[j]).node_id != node_id,
            decreases all@.len() - i,
        {
            assert(views[i as int] == all@[i as int]@);
            if all[i].node_id == node_id {
                proof {
                    lemma_first_broker(views, node_id as nat, i as int);
                }
                return Some(all[i]);
            }
            i += 1;
        }
        proof {
            lemma_no_broker(views, node_id as nat);
        }
        None
    }
}

/// The first position that holds a node ID is where it is found.
pub proof fn lemma_first_broker(brokers: Seq<BrokerView>, node_id: nat, i: int)
    requires
        0 <= i < brokers.len(),
        brokers[i].node_id == node_id,
        forall|j: int| 0 <= j < i ==> (#[trigger] brokers[j]).node_id != node_id,
    ensures
        first_broker(brokers, node_id) == Some(i),
    decreases brokers.len(),
{
    if i < brokers.len() - 1 {
        lemma_first_broker(brokers.drop_last(), node_id, i);
    } else {
        lemma_no_broker(brokers.drop_last(), node_id);
    }
}

/// A node ID that no position holds is not found.
pub proof fn lemma_no_broker(brokers: Seq<BrokerView>, node_id: nat)
    requires
        forall|j: int| 0 <= j < brokers.len() ==> (#[trigger] brokers[j]).node_id != node_id,
    ensures
        first_broker(brokers, node_id) is None,
    decreases brokers.len(),
{
    if brokers.len() > 0 {
        assert(brokers[brokers.len() - 1].node_id != node_id);
        lemma_no_broker(brokers.drop_last(), node_id);
    }
}

proof fn lemma_planned_prefix(cluster: Seq<char>, requested: nat, min: nat, max: nat, k: int)
    requires
        max > 0,
        min <= requested,
        0 <= k <= cell_count(requested, min, max),
    ensures
        ({
            let cells = planned(cluster, requested, min, max).cells.take(k);
            let brokers = all_brokers(cells);
            let n: int = if k <= requested / max {
                k * max
            } else {
                requested as int
            };
            &&& brokers.len() == n
            &&& forall|i: int|
                0 <= i < brokers.len() ==> (#[trigger] brokers[i]) == broker_at(
                    cluster,
                    (i / (max as int) + 1) as nat,
                    (i % (max as int)) as nat,
                    (i + 1) as nat,
                )
        }),
    decreases k,
{
    let cells = planned(cluster, requested, min, max).cells;
    vstd::arithmetic::div_mod::lemma_fundamental_div_mod(requested as int, max as int);
    if k == 0 {
        assert(cells.take(0) =~= Seq::<CellView>::empty());
        assert(0 * max == 0);
    } else {
        lemma_planned_prefix(cluster, requested, min, max, k - 1);
        let before = all_brokers(cells.take(k - 1));
        let last = cells[k - 1];
        assert(cells.take(k).drop_last() =~= cells.take(k - 1));
        assert(cells.take(k).last() == last);
        let brokers = all_brokers(cells.take(k));
        assert(brokers == before + last.brokers);
        assert(last == planned_cell(cluster, requested, max, k - 1));
        let base = (k - 1) * max;
        assert(k * max == base + max) by (nonlinear_arith)
            requires
                base == (k - 1) * max,
        ;
        assert(max * (requested / max) == (requested / max) * max) by (nonlinear_arith);
        assert(before.len() == base);
        if k - 1 == requested / max {
            assert(base == (requested / max) * max);
        }
        assert forall|i: int| 0 <= i < brokers.len() implies (#[trigger] brokers[i]) == broker_at(
            cluster,
            (i / (max as int) + 1) as nat,
            (i % (max as int)) as nat,
            (i + 1) as nat,
        ) by {
            if i < base {
                assert(brokers[i] == before[i]);
            } else {
                let j = i - base;
                assert(brokers[i] == last.brokers[j]);
                assert(0 <= j < max);
                vstd::arithmetic::div_mod::lemma_fundamental_div_mod_converse(
                    i,
                    max as int,
                    k - 1,
                    j,
                );
            }
        }
    }
}

/// Node IDs are the numbers from one on, in order and each once: they do not
/// depend on where cells begin.
pub proof fn law_node_ids_are_consecutive(cluster: Seq<char>, requested: nat, min: nat, max: nat)
    requires
        max > 0,
    ensures
        ({
            let layout = planned(cluster, requested, min, max);
            let brokers = all_brokers(layout.cells);
            &&& brokers.len() + layout.pending_nodes == requested
            &&& forall|i: int| 0 <= i < brokers.len() ==> (#[trigger] brokers[i]).node_id == i + 1
        }),
{
    let layout = planned(cluster, requested, min, max);
    if requested >= min {
        let n = cell_count(requested, min, max);
        lemma_planned_prefix(cluster, requested, min, max, n as int);
        assert(layout.cells.take(n as int) =~= layout.cells);
        vstd::arithmetic::div_mod::lemma_fundamental_div_mod(requested as int, max as int);
        assert(max * (requested / max) == (requested / max) * max) by (nonlinear_arith);
    } else {
        assert(all_brokers(layout.cells).len() == 0);
    }
}

/// A planned broker is found by its node ID, and nothing else is.
pub proof fn law_broker_is_found_by_its_node_id(
    cluster: Seq<char>,
    requested: nat,
    min: nat,
    max: nat,
    node_id: nat,
)
    requires
        max > 0,
    ensures
        ({
            let brokers = all_brokers(planned(cluster, requested, min, max).cells);
            first_broker(brokers, node_id) == if 1 <= node_id <= brokers.len() {
                Some(node_id - 1)
            } else {
                None
            }
        }),
{
    law_node_ids_are_consecutive(cluster, requested, min, max);
    let brokers = all_brokers(planned(cluster, requested, min, max).cells);
    if 1 <= node_id <= brokers.len() {
        lemma_first_broker(brokers, node_id, node_id - 1);
    } else {
        lemma_no_broker(brokers, node_id);
    }
}

/// Every planned cell has at least the smallest and at most the largest number
/// of brokers.
pub proof fn law_cells_have_a_quorum(
    cluster: Seq<char>,
    requested: nat,
    min: nat,
    max: nat,
    index: int,
)
    requires
        0 < max,
        min <= max,
        0 <= index < planned(cluster, requested, min, max).cells.len(),
    ensures
        min <= planned(cluster, requested, min, max).cells[index].brokers.len() <= max,
{
    vstd::arithmetic::div_mod::lemma_mod_bound(requested as int, max as int);
}

proof fn lemma_identity_splits(a: nat, b: nat, x: Seq<char>, y: Seq<char>)
    requires
        text::dec(a) + "-n"@ + x == text::dec(b) + "-n"@ + y,
    ensures
        a == b,
        x == y,
{
    reveal_strlit("-n");
    let s = text::dec(a) + "-n"@ + x;
    text::lemma_dec_value(a);
    text::lemma_dec_value(b);
    let m = text::dec(a).len() as int;
    let n = text::dec(b).len() as int;
    assert(s[m] == '-');
    assert forall|j: int| 0 <= j < m implies s[j] != '-' by {
        assert(s[j] == text::dec(a)[j]);
    }
    text::lemma_first_index_is(s, '-', m);
    let t = text::dec(b) + "-n"@ + y;
    assert(t[n] == '-');
    assert forall|j: int| 0 <= j < n implies t[j] != '-' by {
        assert(t[j] == text::dec(b)[j]);
    }
    text::lemma_first_index_is(t, '-', n);
    assert(m == n);
    assert(s.take(m) =~= text::dec(a));
    assert(t.take(n) =~= text::dec(b));
    text::lemma_dec_injective(a, b);
    assert(s.skip(m + 2) =~= x);
    assert(t.skip(n + 2) =~= y);
}

/// Brokers at different places have different names: no two share a stateful
/// set, pod, configuration or certificate.
pub proof fn law_identities_are_unique(
    cluster: Seq<char>,
    cell_a: nat,
    ordinal_a: nat,
    cell_b: nat,
    ordinal_b: nat,
)
    requires
        identity(cluster, cell_a, ordinal_a) == identity(cluster, cell_b, ordinal_b),
    ensures
        cell_a == cell_b,
        ordinal_a == ordinal_b,
{
    let x = text::dec(cell_a) + "-n"@ + text::dec(ordinal_a + 1);
    let y = text::dec(cell_b) + "-n"@ + text::dec(ordinal_b + 1);
    let k = (cluster + "-c"@).len() as int;
    assert(identity(cluster, cell_a, ordinal_a).skip(k) =~= x);
    assert(identity(cluster, cell_b, ordinal_b).skip(k) =~= y);
    lemma_identity_splits(
        cell_a,
        cell_b,
        text::dec(ordinal_a + 1),
        text::dec(ordinal_b + 1),
    );
    text::lemma_dec_injective(ordinal_a + 1, ordinal_b + 1);
}

/// Brokers are named after their cluster, cell and place, each object of a broker by its own
/// ending, and share the Service of their cell.
pub proof fn law_objects_are_named_after_their_broker(
    cluster: Seq<char>,
    cell: nat,
    ordinal: nat,
    node: nat,
)
    ensures
        ({
            let b = broker_at(cluster, cell, ordinal, node);
            &&& b.node_id == node && b.cell_id == cell && b.ordinal == ordinal
            &&& b.stateful_set == cluster + "-c"@ + text::dec(cell) + "-n"@ + text::dec(ordinal + 1)
            &&& b.pod_name == b.stateful_set + "-0"@
            &&& b.config_map == b.stateful_set + "-config"@
            &&& b.tls_secret == b.stateful_set + "-tls"@
            &&& b.headless_service == cluster + "-cell-"@ + text::dec(cell)
        }),
{
}

/// As many brokers as possible have a place: cells are full but for the last, and only a rest
/// that is too small for a cell waits.
pub proof fn law_nodes_wait_only_where_no_cell_is_possible(
    cluster: Seq<char>,
    requested: nat,
    min: nat,
    max: nat,
    i: int,
)
    requires
        0 < max,
        0 < min <= max,
    ensures
        ({
            let l = planned(cluster, requested, min, max);
            &&& l.pending_nodes < min
            &&& 0 <= i < l.cells.len() ==> l.cells[i].id == i + 1
            &&& 0 <= i < l.cells.len() - 1 ==> l.cells[i].brokers.len() == max
            &&& requested < min ==> l.cells.len() == 0 && l.pending_nodes == requested
        }),
{
    if requested >= min && 0 <= i < cell_count(requested, min, max) - 1 {
        assert(i < requested / max);
    }
    if requested >= min && !remainder_is_cell(requested, min, max) {
        assert(requested % max < min);
    }
}

} // verus!
