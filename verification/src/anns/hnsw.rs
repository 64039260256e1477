//! The HNSW graph: nodes with their layer and connections, the entry point
//! and the highest layer, and per-layer node counts.

use vstd::prelude::*;
use crate::anns::{AnnsError, HnswParams};

verus! {

/// A node of the graph, standing for one vector.
#[derive(Debug)]
pub struct HnswNode {
    pub vector_id: u64,
    pub layer: u8,
    /// Ids of the nodes this one is connected to.
    pub connections: Vec<u64>,
}

/// A node with its connections as a sequence.
pub struct NodeView {
    pub vector_id: u64,
    pub layer: u8,
    pub connections: Seq<u64>,
}

impl View for HnswNode {
    type V = NodeView;

    open spec fn view(&self) -> NodeView {
        NodeView { vector_id: self.vector_id, layer: self.layer, connections: self.connections@ }
    }
}

impl Clone for HnswNode {
    fn clone(&self) -> (r: Self)
        ensures
            r@ == self@,
    {
        HnswNode { vector_id: self.vector_id, layer: self.layer, connections: self.connections.clone() }
    }
}

/// The ids other than `x`.
pub open spec fn not_target(x: u64) -> spec_fn(u64) -> bool {
    |y: u64| y != x
}

impl HnswNode {
    /// A node without connections.
    pub fn new(vector_id: u64, layer: u8) -> (n: Self)
        ensures
            n@ == (NodeView { vector_id, layer, connections: Seq::empty() }),
    {
        HnswNode { vector_id, layer, connections: Vec::new() }
    }

    /// Connect to another node, once.
    pub fn add_connection(&mut self, target_id: u64)
        ensures
            final(self).vector_id == old(self).vector_id,
            final(self).layer == old(self).layer,
            final(self).connections@ == if old(self).connections@.contains(target_id) {
                old(self).connections@
            } else {
                old(self).connections@.push(target_id)
            },
    {
        let n = self.connections.len();
        let mut i: usize = 0;
        while i < n
            invariant
                n == self.connections@.len(),
                i <= n,
                forall|j: int| 0 <= j < i ==> self.connections@[j] != target_id,
            decreases n - i,
        {
            if self.connections[i] == target_id {
                assert(self.connections@[i as int] == target_id);
                return;
            }
            i += 1;
        }
        self.connections.push(target_id);
    }

    /// Drop every connection to another node.
    pub fn remove_connection(&mut self, target_id: u64)
        ensures
            final(self).vector_id == old(self).vector_id,
            final(self).layer == old(self).layer,
            final(self).connections@ == old(self).connections@.filter(not_target(target_id)),
    {
        let ghost before = self.connections@;
        let mut kept: Vec<u64> = Vec::new();
        let n = self.connections.len();
        let mut i: usize = 0;
        while i < n
            invariant
                n == self.connections@.len(),
                before == self.connections@,
                i <= n,
                kept@ == before.subrange(0, i as int).filter(not_target(target_id)),
            decreases n - i,
        {
            let id = self.connections[i];
            proof {
                reveal_with_fuel(Seq::<_>::filter, 1);
                assert(before.subrange(0, i + 1).drop_last() =~= before.subrange(0, i as int));
            }
            if id != target_id {
                kept.push(id);
            }
            i += 1;
        }
        assert(before.subrange(0, n as int) =~= before);
        self.connections = kept;
    }

    /// Number of connections.
    pub fn connection_count(&self) -> (n: usize)
        ensures
            n == self.connections@.len(),
    {
        self.connections.len()
    }
}

/// The views of a list of nodes.
pub open spec fn node_views(v: Seq<HnswNode>) -> Seq<NodeView> {
    v.map_values(|n: HnswNode| n@)
}

/// Position of the last node on the highest layer, if any.
pub open spec fn top_index(ns: Seq<NodeView>) -> Option<int>
    decreases ns.len(),
{
    if ns.len() == 0 {
        None
    } else {
        match top_index(ns.drop_last()) {
            None => Some(ns.len() - 1),
            Some(b) => if ns.last().layer >= ns[b].layer { Some(ns.len() - 1) } else { Some(b) },
        }
    }
}

/// The id of the last node on the highest layer, if any.
pub open spec fn top_node_id(ns: Seq<NodeView>) -> Option<u64> {
    match top_index(ns) {
        None => None,
        Some(b) => Some(ns[b].vector_id),
    }
}

/// A node is kept by a removal when its id differs.
pub open spec fn keeps_node(vector_id: u64) -> spec_fn(NodeView) -> bool {
    |n: NodeView| n.vector_id != vector_id
}

/// A node with its connections to `vector_id` dropped.
pub open spec fn without_link(n: NodeView, vector_id: u64) -> NodeView {
    NodeView { connections: n.connections.filter(not_target(vector_id)), ..n }
}

/// Total number of connections over the nodes.
pub open spec fn total_connections(ns: Seq<NodeView>) -> nat
    decreases ns.len(),
{
    if ns.len() == 0 {
        0
    } else {
        total_connections(ns.drop_last()) + ns.last().connections.len()
    }
}

/// The graph.
#[derive(Debug)]
pub struct HnswGraph {
    dimensions: u32,
    params: HnswParams,
    nodes: Vec<HnswNode>,
    entry_point: Option<u64>,
    max_layer: u8,
}

impl HnswGraph {
    /// The nodes, in the order they were added.
    pub closed spec fn nodes_view(&self) -> Seq<NodeView> {
        node_views(self.nodes@)
    }

    /// The node searches start from.
    pub closed spec fn entry(&self) -> Option<u64> {
        self.entry_point
    }

    /// The highest layer seen.
    pub closed spec fn top_layer(&self) -> u8 {
        self.max_layer
    }

    /// The dimension of the vectors.
    pub closed spec fn dims(&self) -> u32 {
        self.dimensions
    }

    /// The parameters.
    pub closed spec fn parameters(&self) -> HnswParams {
        self.params
    }

    /// An empty graph; zero dimensions are refused.
    pub fn new(dimensions: u32, params: HnswParams) -> (r: Result<Self, AnnsError>)
        ensures
            dimensions == 0 ==> r == Err::<Self, AnnsError>(AnnsError::InvalidDimensions),
            dimensions != 0 ==> (r matches Ok(g) && g.nodes_view() == Seq::<NodeView>::empty() && g.entry() is None
                && g.top_layer() == 0 && g.dims() == dimensions && g.parameters() == params),
    {
        if dimensions == 0 {
            return Err(AnnsError::InvalidDimensions);
        }
        let g = HnswGraph { dimensions, params, nodes: Vec::new(), entry_point: None, max_layer: 0 };
        assert(g.nodes_view() =~= Seq::<NodeView>::empty());
        Ok(g)
    }

    /// Add a node: it raises the highest layer if it lies above it, and it
    /// becomes the entry point when there is none or it lies on the highest
    /// layer.
    pub fn add_node(&mut self, node: HnswNode) -> (r: Result<(), AnnsError>)
        ensures
            r is Ok,
            final(self).nodes_view() == old(self).nodes_view().push(node@),
            final(self).top_layer() == if node.layer > old(self).top_layer() { node.layer } else { old(self).top_layer() },
            final(self).entry() == if old(self).entry() is None || node.layer >= final(self).top_layer() {
                Some(node.vector_id)
            } else {
                old(self).entry()
            },
            final(self).dims() == old(self).dims(),
            final(self).parameters() == old(self).parameters(),
    {
        if node.layer > self.max_layer {
            self.max_layer = node.layer;
        }
        if self.entry_point.is_none() || node.layer >= self.max_layer {
            self.entry_point = Some(node.vector_id);
        }
        let ghost before = self.nodes@;
        let ghost nv = node@;
        self.nodes.push(node);
        assert(node_views(self.nodes@) =~= node_views(before).push(nv));
        Ok(())
    }

    /// The first node with the given id.
    pub fn get_node(&self, vector_id: u64) -> (r: Option<&HnswNode>)
        ensures
            match r {
                None => forall|i: int| 0 <= i < self.nodes_view().len() ==> self.nodes_view()[i].vector_id != vector_id,
                Some(n) => exists|i: int|
                    0 <= i < self.nodes_view().len() && self.nodes_view()[i] == n@ && n.vector_id == vector_id
                        && forall|j: int| 0 <= j < i ==> self.nodes_view()[j].vector_id != vector_id,
            },
    {
        let n = self.nodes.len();
        let mut i: usize = 0;
        while i < n
            invariant
                n == self.nodes@.len(),
                i <= n,
                forall|j: int| 0 <= j < i ==> self.nodes@[j].vector_id != vector_id,
            decreases n - i,
        {
            if self.nodes[i].vector_id == vector_id {
                assert(self.nodes_view()[i as int] == self.nodes@[i as int]@);
                return Some(&self.nodes[i]);
            }
            i += 1;
        }
        None
    }

    /// The first node with the given id, to be changed in place; what it
    /// becomes replaces it in the graph.
    pub fn get_node_mut(&mut self, vector_id: u64) -> (r: Option<&mut HnswNode>)
        ensures
            final(self).entry() == old(self).entry(),
            final(self).top_layer() == old(self).top_layer(),
            final(self).dims() == old(self).dims(),
            final(self).parameters() == old(self).parameters(),
            match r {
                None => {
                    &&& forall|i: int|
                        0 <= i < old(self).nodes_view().len() ==> old(self).nodes_view()[i].vector_id != vector_id
                    &&& final(self).nodes_view() == old(self).nodes_view()
                },
                Some(n) => exists|i: int|
                    0 <= i < old(self).nodes_view().len() && old(self).nodes_view()[i] == (*n)@ && n.vector_id == vector_id
                        && (forall|j: int| 0 <= j < i ==> old(self).nodes_view()[j].vector_id != vector_id)
                        && final(self).nodes_view() == old(self).nodes_view().update(i, (*final(n))@),
            },
    {
        let n = self.nodes.len();
        let mut i: usize = 0;
        while i < n
            invariant
                n == self.nodes@.len(),
                *self == *old(self),
                i <= n,
                forall|j: int| 0 <= j < i ==> self.nodes@[j].vector_id != vector_id,
            decreases n - i,
        {
            if self.nodes[i].vector_id == vector_id {
                assert(self.nodes_view()[i as int] == self.nodes@[i as int]@);
                return Some(&mut self.nodes[i]);
            }
            i += 1;
        }
        None
    }

    /// Remove every node with the given id and every connection to it; when
    /// it was the entry point, the last node on the highest layer takes its
    /// place.
    pub fn remove_node(&mut self, vector_id: u64) -> (r: Result<(), AnnsError>)
        ensures
            r is Ok,
            final(self).nodes_view() == old(self).nodes_view().filter(keeps_node(vector_id)).map_values(
                |n: NodeView| without_link(n, vector_id),
            ),
            final(self).entry() == if old(self).entry() == Some(vector_id) {
                top_node_id(final(self).nodes_view())
            } else {
                old(self).entry()
            },
            final(self).top_layer() == old(self).top_layer(),
            final(self).dims() == old(self).dims(),
            final(self).parameters() == old(self).parameters(),
    {
        let ghost before = node_views(self.nodes@);
        let mut kept: Vec<HnswNode> = Vec::new();
        let n = self.nodes.len();
        let mut i: usize = 0;
        while i < n
            invariant
                n == self.nodes@.len(),
                before == node_views(self.nodes@),
                i <= n,
                node_views(kept@) == before.subrange(0, i as int).filter(keeps_node(vector_id)).map_values(
                    |m: NodeView| without_link(m, vector_id),
                ),
            decreases n - i,
        {
            proof {
                reveal_with_fuel(Seq::<_>::filter, 1);
                assert(before.subrange(0, i + 1).drop_last() =~= before.subrange(0, i as int));
                assert(before.subrange(0, i + 1).last() == self.nodes@[i as int]@);
            }
            if self.nodes[i].vector_id != vector_id {
                let ghost prev = kept@;
                let mut copy = self.nodes[i].clone();
                copy.remove_connection(vector_id);
                kept.push(copy);
                proof {
                    let f = |m: NodeView| without_link(m, vector_id);
                    assert(node_views(kept@) =~= node_views(prev).push(without_link(self.nodes@[i as int]@, vector_id)));
                    assert(before.subrange(0, i + 1).filter(keeps_node(vector_id)) =~= before.subrange(0, i as int).filter(
                        keeps_node(vector_id),
                    ).push(before[i as int]));
                    assert(before.subrange(0, i + 1).filter(keeps_node(vector_id)).map_values(f) =~= before.subrange(
                        0,
                        i as int,
                    ).filter(keeps_node(vector_id)).map_values(f).push(f(before[i as int])));
                }
            }
            i += 1;
        }
        assert(before.subrange(0, n as int) =~= before);
        self.nodes = kept;
        if self.entry_point == Some(vector_id) {
            self.entry_point = self.top_node();
        }
        Ok(())
    }

    /// The id of the last node on the highest layer, if any.
    fn top_node(&self) -> (r: Option<u64>)
        ensures
            r == top_node_id(self.nodes_view()),
    {
        let ghost ns = self.nodes_view();
        let n = self.nodes.len();
        let mut best: Option<usize> = None;
        let mut i: usize = 0;
        while i < n
            invariant
                n == self.nodes@.len(),
                ns == self.nodes_view(),
                i <= n,
                match best {
                    None => top_index(ns.subrange(0, i as int)) is None,
                    Some(b) => b < i && top_index(ns.subrange(0, i as int)) == Some(b as int),
                },
            decreases n - i,
        {
            proof {
                assert(ns.subrange(0, i + 1).drop_last() =~= ns.subrange(0, i as int));
                assert(ns.subrange(0, i + 1).last() == ns[i as int]);
                assert(ns[i as int] == self.nodes@[i as int]@);
            }
            match best {
                None => {
                    best = Some(i);
                },
                Some(b) => {
                    assert(ns.subrange(0, i + 1)[b as int] == ns[b as int]);
                    assert(ns[b as int] == self.nodes@[b as int]@);
                    if self.nodes[i].layer >= self.nodes[b].layer {
                        best = Some(i);
                    }
                },
            }
            i += 1;
        }
        assert(ns.subrange(0, n as int) =~= ns);
        match best {
            None => None,
            Some(b) => Some(self.nodes[b].vector_id),
        }
    }

    /// The node searches start from.
    pub fn entry_point(&self) -> (r: Option<u64>)
        ensures
            r == self.entry(),
    {
        self.entry_point
    }

    /// The highest layer seen.
    pub fn max_layer(&self) -> (r: u8)
        ensures
            r == self.top_layer(),
    {
        self.max_layer
    }

    /// Number of nodes.
    pub fn node_count(&self) -> (r: usize)
        ensures
            r == self.nodes_view().len(),
    {
        self.nodes.len()
    }

    /// The dimension of the vectors.
    pub fn dimensions(&self) -> (r: u32)
        ensures
            r == self.dims(),
    {
        self.dimensions
    }

    /// The parameters.
    pub fn params(&self) -> (r: &HnswParams)
        ensures
            *r == self.parameters(),
    {
        &self.params
    }

    /// The bytes the graph takes: its record, one node record per node and
    /// eight bytes per connection.
    pub fn memory_usage(&self) -> (r: u64)
        requires
            vstd::layout::size_of::<HnswGraph>() + self.nodes_view().len() * vstd::layout::size_of::<HnswNode>() + 8
                * total_connections(self.nodes_view()) <= u64::MAX,
        ensures
            r == vstd::layout::size_of::<HnswGraph>() + self.nodes_view().len() * vstd::layout::size_of::<HnswNode>()
                + 8 * total_connections(self.nodes_view()),
    {
        self.estimate_memory_usage()
    }

    fn estimate_memory_usage(&self) -> (r: u64)
        requires
            vstd::layout::size_of::<HnswGraph>() + self.nodes_view().len() * vstd::layout::size_of::<HnswNode>() + 8
                * total_connections(self.nodes_view()) <= u64::MAX,
        ensures
            r == vstd::layout::size_of::<HnswGraph>() + self.nodes_view().len() * vstd::layout::size_of::<HnswNode>()
                + 8 * total_connections(self.nodes_view()),
    {
        let ghost ns = self.nodes_view();
        let base_size = core::mem::size_of::<HnswGraph>() as u64;
        let node_size = core::mem::size_of::<HnswNode>() as u64;
        let n = self.nodes.len();
        proof {
            let a = vstd::layout::size_of::<HnswGraph>();
            let b = vstd::layout::size_of::<HnswNode>();
            let t = 8 * total_connections(ns);
            assert(n * b <= a + n * b + t) by (nonlinear_arith);
        }
        let nodes_size = n as u64 * node_size;
        let mut connections_size: u64 = 0;
        let mut i: usize = 0;
        while i < n
            invariant
                n == self.nodes@.len(),
                ns == self.nodes_view(),
                i <= n,
                connections_size == 8 * total_connections(ns.subrange(0, i as int)),
                base_size == vstd::layout::size_of::<HnswGraph>(),
                nodes_size == n * vstd::layout::size_of::<HnswNode>(),
                base_size + nodes_size + 8 * total_connections(ns) <= u64::MAX,
            decreases n - i,
        {
            proof {
                assert(ns.subrange(0, i + 1).drop_last() =~= ns.subrange(0, i as int));
                assert(ns.subrange(0, i + 1).last() == ns[i as int]);
                assert(ns[i as int] == self.nodes@[i as int]@);
                lemma_total_connections_prefix(ns, i as int + 1);
            }
            let len = self.nodes[i].connections.len() as u64;
            connections_size = connections_size + len * 8;
            i += 1;
        }
        assert(ns.subrange(0, n as int) =~= ns);
        base_size + nodes_size + connections_size
    }

    /// Whether the graph has no nodes.
    pub fn is_empty(&self) -> (b: bool)
        ensures
            b == (self.nodes_view().len() == 0),
    {
        self.nodes.len() == 0
    }

    /// Drop every node, the entry point and the highest layer.
    pub fn clear(&mut self)
        ensures
            final(self).nodes_view() == Seq::<NodeView>::empty(),
            final(self).entry() is None,
            final(self).top_layer() == 0,
            final(self).dims() == old(self).dims(),
            final(self).parameters() == old(self).parameters(),
    {
        self.nodes.clear();
        self.entry_point = None;
        self.max_layer = 0;
        assert(self.nodes_view() =~= Seq::<NodeView>::empty());
    }

    /// The nodes present on a layer, that is, on it or above it, in order.
    pub fn nodes_at_layer(&self, layer: u8) -> (r: Vec<&HnswNode>)
        ensures
            r@.map_values(|n: &HnswNode| n@) == self.nodes_view().filter(|n: NodeView| n.layer >= layer),
    {
        let ghost ns = self.nodes_view();
        let ghost keep = |n: NodeView| n.layer >= layer;
        let mut out: Vec<&HnswNode> = Vec::new();
        let n = self.nodes.len();
        let mut i: usize = 0;
        while i < n
            invariant
                n == self.nodes@.len(),
                ns == self.nodes_view(),
                keep == (|n: NodeView| n.layer >= layer),
                i <= n,
                out@.map_values(|m: &HnswNode| m@) == ns.subrange(0, i as int).filter(keep),
            decreases n - i,
        {
            proof {
                reveal_with_fuel(Seq::<_>::filter, 1);
                assert(ns.subrange(0, i + 1).drop_last() =~= ns.subrange(0, i as int));
                assert(ns.subrange(0, i + 1).last() == ns[i as int]);
                assert(ns[i as int] == self.nodes@[i as int]@);
            }
            let node = &self.nodes[i];
            if node.layer >= layer {
                let ghost prev = out@;
                out.push(node);
                assert(out@.map_values(|m: &HnswNode| m@) =~= prev.map_values(|m: &HnswNode| m@).push(node@));
            }
            i += 1;
        }
        assert(ns.subrange(0, n as int) =~= ns);
        out
    }

    /// The layer for a new node: the smallest of the top layer allowed by
    /// the parameters, 4, and a quarter of the connection count.
    pub fn generate_layer(&self) -> (r: u8)
        requires
            self.parameters().max_layers > 0,
        ensures
            r == min3(self.parameters().max_layers - 1, 4, (self.parameters().m / 4) as int),
    {
        let mut layer: u8 = 0;
        while layer < self.params.max_layers - 1 && layer < 4 && (layer as u16) < self.params.m / 4
            invariant
                self.params.max_layers > 0,
                layer <= min3(self.params.max_layers - 1, 4, (self.params.m / 4) as int),
            decreases 4 - layer,
        {
            layer += 1;
        }
        layer
    }
}

/// The smallest of three numbers.
pub open spec fn min3(a: int, b: int, c: int) -> int {
    if a <= b && a <= c {
        a
    } else if b <= c {
        b
    } else {
        c
    }
}

proof fn lemma_total_connections_prefix(ns: Seq<NodeView>, k: int)
    requires
        0 <= k <= ns.len(),
    ensures
        total_connections(ns.subrange(0, k)) <= total_connections(ns),
    decreases ns.len() - k,
{
    if k < ns.len() {
        lemma_total_connections_prefix(ns, k + 1);
        assert(ns.subrange(0, k + 1).drop_last() =~= ns.subrange(0, k));
    } else {
        assert(ns.subrange(0, k) =~= ns);
    }
}

/// A layer with its node count.
#[derive(Debug, Clone)]
pub struct HnswLayer {
    pub layer_id: u8,
    pub node_count: u32,
}

impl HnswLayer {
    /// An empty layer.
    pub fn new(layer_id: u8) -> (l: Self)
        ensures
            l.layer_id == layer_id,
            l.node_count == 0,
    {
        HnswLayer { layer_id, node_count: 0 }
    }

    /// Count one more node.
    pub fn add_node(&mut self)
        requires
            old(self).node_count < u32::MAX,
        ensures
            final(self).node_count == old(self).node_count + 1,
            final(self).layer_id == old(self).layer_id,
    {
        self.node_count += 1;
    }

    /// Count one node less, not below zero.
    pub fn remove_node(&mut self)
        ensures
            final(self).node_count == if old(self).node_count > 0 { old(self).node_count - 1 } else { 0 },
            final(self).layer_id == old(self).layer_id,
    {
        if self.node_count > 0 {
            self.node_count -= 1;
        }
    }
}

/// Counting a node on a layer and then uncounting it gives the layer back.
pub proof fn lemma_layer_add_remove(count: u32)
    requires
        count < u32::MAX,
    ensures
        ((count + 1) as u32) > 0,
        (((count + 1) as u32) - 1) as u32 == count,
{
}

} // verus!
