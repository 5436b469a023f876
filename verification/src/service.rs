//! The layout service: owns the authoritative graph, guards rebuilds with
//! a single-flight flag, keeps a short-lived position cache, serves
//! paginated windows, reconciles executor output back into the nodes, and
//! packs position frames for broadcast.

use crate::builder::{build_graph_data, spec_build_graph, spec_counts_total, MAX_STORE_ENTRIES};
use crate::gpu::GpuInitTracker;
use crate::graph::{
    clone_nodes, clone_store, graph_wf, nodes_view, Edge, GraphData, Node, NodeView,
};
use crate::metadata::{store_wf, MetadataStore};
use crate::record::{encode_frame, spec_encode_frame, BinaryNodeData, NODE_RECORD_BYTES};
use vstd::prelude::*;

verus! {

/// How long a cached position snapshot may be served, in milliseconds.
pub const NODE_POSITION_CACHE_TTL_MS: u64 = 50;

/// What can go wrong inside the core and around it; the session layer
/// maps each kind onto the stable error codes of the protocol.
#[derive(Debug, Clone, Copy, PartialEq, Eq, Structural)]
pub enum ServiceError {
    /// The executor or its kernel could not be brought up.
    InitializationFailed,
    /// Malformed input or an unknown request.
    InvalidInput,
    /// A step of a running simulation failed; the next tick retries.
    StepFailed,
    /// A single-flight guard refused a concurrent attempt.
    Busy,
    /// A wait on a resource or collaborator ran out.
    Timeout,
    /// The socket failed.
    Transport,
    /// An external collaborator failed.
    Upstream,
}

/// The packed records of a node list, in node order.
pub open spec fn spec_node_records(nodes: Seq<NodeView>) -> Seq<BinaryNodeData> {
    nodes.map_values(|n: NodeView| n.data)
}

/// Packs every node's record into one headerless broadcast frame,
/// 28 bytes per node.
pub fn positions_to_binary(nodes: &Vec<Node>) -> (r: Vec<u8>)
    ensures
        r@ == spec_encode_frame(spec_node_records(nodes_view(nodes@))),
        r@.len() == NODE_RECORD_BYTES * nodes@.len(),
{
    let mut records: Vec<BinaryNodeData> = Vec::new();
    let mut i: usize = 0;
    while i < nodes.len()
        invariant
            i <= nodes@.len(),
            records@.len() == i,
            forall|k: int| 0 <= k < i ==> records@[k] == nodes@[k]@.data,
        decreases nodes@.len() - i,
    {
        records.push(nodes[i].data);
        i = i + 1;
    }
    proof {
        assert(records@ =~= spec_node_records(nodes_view(nodes@)));
    }
    encode_frame(&records)
}

/// One page of the graph: the node window and every edge incident on it.
pub struct PaginatedGraphData {
    pub nodes: Vec<Node>,
    pub edges: Vec<Edge>,
    pub metadata: MetadataStore,
    pub total_nodes: usize,
    pub total_edges: usize,
    pub total_pages: u32,
    pub current_page: u32,
}

/// Whether an edge touches the node window.
pub open spec fn spec_touches(win: Seq<NodeView>, e: Edge) -> bool {
    exists|i: int| 0 <= i < win.len() && (win[i].id == e.source || win[i].id == e.target)
}

/// The edges incident on a node window, in edge order.
pub open spec fn spec_incident_edges(win: Seq<NodeView>, edges: Seq<Edge>) -> Seq<Edge>
    decreases edges.len(),
{
    if edges.len() == 0 {
        Seq::empty()
    } else {
        let rest = spec_incident_edges(win, edges.drop_last());
        if spec_touches(win, edges.last()) {
            rest.push(edges.last())
        } else {
            rest
        }
    }
}

/// Whether some node of the window carries one of the edge's endpoints.
fn touches(win: &Vec<Node>, e: &Edge) -> (r: bool)
    ensures
        r == spec_touches(nodes_view(win@), *e),
{
    let mut i: usize = 0;
    while i < win.len()
        invariant
            i <= win@.len(),
            forall|k: int|
                0 <= k < i ==> (#[trigger] nodes_view(win@)[k]).id != e.source && nodes_view(
                    win@,
                )[k].id != e.target,
        decreases win@.len() - i,
    {
        proof {
            assert(nodes_view(win@)[i as int] == win@[i as int]@);
        }
        if win[i].id == e.source || win[i].id == e.target {
            return true;
        }
        i = i + 1;
    }
    false
}

/// The layout service state: the graph, the position cache, and the two
/// single-flight guards for rebuilds and executor initialization.
pub struct GraphService {
    pub graph: GraphData,
    /// A recent snapshot of the nodes and the time it was taken,
    /// in milliseconds.
    pub cache: Option<(Vec<Node>, u64)>,
    pub cache_enabled: bool,
    /// The rebuild single-flight guard.
    pub rebuild_in_progress: bool,
    /// The guarded, retried executor initialization.
    pub gpu_init: GpuInitTracker,
}

impl GraphService {
    /// Bounds and shape every operation preserves: a well-formed graph
    /// whose own store could rebuild it.
    pub open spec fn wf(self) -> bool {
        &&& graph_wf(self.graph@)
        &&& store_wf(self.graph@.metadata)
        &&& self.graph@.metadata.len() <= MAX_STORE_ENTRIES
        &&& spec_counts_total(self.graph@.metadata, self.graph@.metadata.len() as int)
            <= 0xFFFF_FFFF_FFFF_FFFFu64
        &&& self.graph@.nodes.len() <= MAX_STORE_ENTRIES
    }

    /// A fresh service around the empty graph, nothing cached, no guard
    /// held.
    pub fn new(cache_enabled: bool) -> (r: GraphService)
        ensures
            r.graph@.nodes.len() == 0,
            r.graph@.edges.len() == 0,
            r.cache is None,
            r.cache_enabled == cache_enabled,
            r.rebuild_in_progress == false,
            r.gpu_init == (GpuInitTracker {
                in_progress: false,
                failures: 0u32,
                available: false,
                gave_up: false,
            }),
            r.wf(),
    {
        GraphService {
            graph: GraphData::new(),
            cache: None,
            cache_enabled,
            rebuild_in_progress: false,
            gpu_init: GpuInitTracker::new(),
        }
    }

    /// Claims the rebuild single-flight slot: a second claim while a
    /// rebuild runs is refused with `Busy` and changes nothing.
    pub fn try_begin_rebuild(&mut self) -> (r: Result<(), ServiceError>)
        ensures
            old(self).rebuild_in_progress ==> r == Err::<(), ServiceError>(ServiceError::Busy)
                && *final(self) == *old(self),
            !old(self).rebuild_in_progress ==> r is Ok && final(self).rebuild_in_progress
                && final(self).graph == old(self).graph && final(self).cache == old(self).cache
                && final(self).cache_enabled == old(self).cache_enabled && final(self).gpu_init
                == old(self).gpu_init,
    {
        if self.rebuild_in_progress {
            Err(ServiceError::Busy)
        } else {
            self.rebuild_in_progress = true;
            Ok(())
        }
    }

    /// Releases the rebuild slot; called on every exit path of a rebuild.
    pub fn finish_rebuild(&mut self)
        ensures
            final(self).rebuild_in_progress == false,
            final(self).graph == old(self).graph,
            final(self).cache == old(self).cache,
            final(self).cache_enabled == old(self).cache_enabled,
            final(self).gpu_init == old(self).gpu_init,
    {
        self.rebuild_in_progress = false;
    }

    /// Builds a graph from a delivered store under the single-flight
    /// guard: refused with `Busy` while another rebuild runs, and the
    /// guard is clear again on both exits.
    pub fn build_graph_from_metadata(&mut self, store: &MetadataStore) -> (r: Result<
        GraphData,
        ServiceError,
    >)
        requires
            store_wf(store@),
            store@.len() <= MAX_STORE_ENTRIES,
            spec_counts_total(store@, store@.len() as int) <= 0xFFFF_FFFF_FFFF_FFFFu64,
        ensures
            old(self).rebuild_in_progress ==> r == Err::<GraphData, ServiceError>(
                ServiceError::Busy,
            ) && *final(self) == *old(self),
            !old(self).rebuild_in_progress ==> match r {
                Ok(g) => g@ == spec_build_graph(store@) && graph_wf(g@),
                Err(_) => false,
            },
            final(self).rebuild_in_progress == old(self).rebuild_in_progress,
            final(self).graph == old(self).graph,
            final(self).cache == old(self).cache,
            final(self).cache_enabled == old(self).cache_enabled,
            final(self).gpu_init == old(self).gpu_init,
    {
        match self.try_begin_rebuild() {
            Err(e) => Err(e),
            Ok(()) => {
                let g = build_graph_data(store);
                self.finish_rebuild();
                Ok(g)
            },
        }
    }

    /// Rebuilds from the service's own store, as the periodic refresh
    /// does; the same single-flight discipline applies.
    pub fn build_graph(&mut self) -> (r: Result<GraphData, ServiceError>)
        requires
            old(self).wf(),
        ensures
            old(self).rebuild_in_progress ==> r == Err::<GraphData, ServiceError>(
                ServiceError::Busy,
            ) && *final(self) == *old(self),
            !old(self).rebuild_in_progress ==> match r {
                Ok(g) => g@ == spec_build_graph(old(self).graph@.metadata) && graph_wf(g@),
                Err(_) => false,
            },
            final(self).rebuild_in_progress == old(self).rebuild_in_progress,
            final(self).graph == old(self).graph,
            final(self).cache == old(self).cache,
            final(self).cache_enabled == old(self).cache_enabled,
            final(self).gpu_init == old(self).gpu_init,
    {
        match self.try_begin_rebuild() {
            Err(e) => Err(e),
            Ok(()) => {
                let store = clone_store(&self.graph.metadata);
                let g = build_graph_data(&store);
                self.finish_rebuild();
                Ok(g)
            },
        }
    }

    /// Installs a built graph as the authoritative one and drops the
    /// cache, so no stale snapshot outlives a rebuild.
    pub fn install_graph(&mut self, g: GraphData)
        requires
            graph_wf(g@),
            store_wf(g@.metadata),
            g@.metadata.len() <= MAX_STORE_ENTRIES,
            spec_counts_total(g@.metadata, g@.metadata.len() as int) <= 0xFFFF_FFFF_FFFF_FFFFu64,
            g@.nodes.len() <= MAX_STORE_ENTRIES,
        ensures
            final(self).graph == g,
            final(self).cache is None,
            final(self).cache_enabled == old(self).cache_enabled,
            final(self).rebuild_in_progress == old(self).rebuild_in_progress,
            final(self).gpu_init == old(self).gpu_init,
            final(self).wf(),
    {
        self.graph = g;
        self.cache = None;
    }

    /// Drops the cached snapshot so the next read is fresh.
    pub fn clear_position_cache(&mut self)
        ensures
            final(self).cache is None,
            final(self).graph == old(self).graph,
            final(self).cache_enabled == old(self).cache_enabled,
            final(self).rebuild_in_progress == old(self).rebuild_in_progress,
            final(self).gpu_init == old(self).gpu_init,
    {
        self.cache = None;
    }

    /// Whether a snapshot taken at `taken_at` may still be served at
    /// `now`: only within the cache lifetime.
    pub open spec fn spec_cache_fresh(taken_at: u64, now: u64) -> bool {
        taken_at <= now && now - taken_at < NODE_POSITION_CACHE_TTL_MS
    }

    /// The nodes as of now: a cached snapshot if one is fresh, else a
    /// fresh snapshot of the graph, cached with the time it was taken.
    /// A snapshot is served from the cache only while its age is below
    /// the lifetime; with nothing cached the graph itself is read, so an
    /// empty graph reads empty.
    pub fn get_node_positions(&mut self, now_ms: u64) -> (r: Vec<Node>)
        ensures
            old(self).cache is None ==> nodes_view(r@) == nodes_view(old(self).graph.nodes@)
                && r@.len() == old(self).graph.nodes@.len(),
            final(self).graph == old(self).graph,
            final(self).cache_enabled == old(self).cache_enabled,
            final(self).rebuild_in_progress == old(self).rebuild_in_progress,
            final(self).gpu_init == old(self).gpu_init,
            match old(self).cache {
                Some(c) => old(self).cache_enabled && Self::spec_cache_fresh(c.1, now_ms) ==> {
                    &&& nodes_view(r@) == nodes_view(c.0@)
                    &&& final(self).cache == old(self).cache
                },
                None => true,
            },
            !(old(self).cache matches Some(c) && old(self).cache_enabled
                && Self::spec_cache_fresh(c.1, now_ms)) ==> {
                &&& nodes_view(r@) == nodes_view(old(self).graph.nodes@)
                &&& if old(self).cache_enabled {
                    match final(self).cache {
                        Some(c2) => nodes_view(c2.0@) == nodes_view(r@) && c2.1 == now_ms,
                        None => false,
                    }
                } else {
                    final(self).cache == old(self).cache
                }
            },
    {
        if self.cache_enabled {
            let fresh = match &self.cache {
                Some(c) => c.1 <= now_ms && now_ms - c.1 < NODE_POSITION_CACHE_TTL_MS,
                None => false,
            };
            if fresh {
                match &self.cache {
                    Some(c) => {
                        return clone_nodes(&c.0);
                    },
                    None => {},
                }
            }
        }
        let nodes = clone_nodes(&self.graph.nodes);
        if self.cache_enabled {
            let snap = clone_nodes(&nodes);
            self.cache = Some((snap, now_ms));
        }
        nodes
    }

    /// One page of the graph: nodes `page * page_size` up to the next
    /// boundary, every edge incident on that window, and the page count
    /// rounded upward.
    pub fn get_paginated_graph_data(&self, page: u32, page_size: u32) -> (r: Result<
        PaginatedGraphData,
        ServiceError,
    >)
        requires
            page_size >= 1,
            self.wf(),
        ensures
            match r {
                Ok(p) => {
                    let total = self.graph@.nodes.len() as int;
                    let start = if page * page_size > total {
                        total
                    } else {
                        page * page_size as int
                    };
                    let end = if (page + 1) * page_size > total {
                        total
                    } else {
                        (page + 1) * page_size as int
                    };
                    &&& nodes_view(p.nodes@) == self.graph@.nodes.subrange(start, end)
                    &&& p.edges@ == spec_incident_edges(nodes_view(p.nodes@), self.graph@.edges)
                    &&& p.metadata@ == self.graph@.metadata
                    &&& p.total_nodes == self.graph@.nodes.len()
                    &&& p.total_edges == self.graph@.edges.len()
                    &&& p.total_pages == (total + page_size - 1) / (page_size as int)
                    &&& p.current_page == page
                },
                Err(_) => false,
            },
    {
        let total_u64 = self.graph.nodes.len() as u64;
        proof {
            assert(self.graph@.nodes.len() == self.graph.nodes@.len());
            assert((page as u64) * (page_size as u64) <= 0xFFFF_FFFFu64 * 0xFFFF_FFFFu64) by (
            nonlinear_arith)
                requires
                    page <= 0xFFFF_FFFFu32 && page_size <= 0xFFFF_FFFFu32,
            ;
            assert((page as u64 + 1) * (page_size as u64) <= 0x1_0000_0000u64 * 0xFFFF_FFFFu64) by (
            nonlinear_arith)
                requires
                    page <= 0xFFFF_FFFFu32 && page_size <= 0xFFFF_FFFFu32,
            ;
        }
        let start_u64 = (page as u64) * (page_size as u64);
        let end_u64 = (page as u64 + 1) * (page_size as u64);
        proof {
            assert(end_u64 == start_u64 + page_size as u64) by (nonlinear_arith)
                requires
                    start_u64 == (page as u64) * (page_size as u64) && end_u64 == (page as u64 + 1)
                        * (page_size as u64) && page <= 0xFFFF_FFFFu32 && page_size
                        <= 0xFFFF_FFFFu32,
            ;
        }
        let start = if start_u64 > total_u64 {
            self.graph.nodes.len()
        } else {
            start_u64 as usize
        };
        let end = if end_u64 > total_u64 {
            self.graph.nodes.len()
        } else {
            end_u64 as usize
        };
        let mut page_nodes: Vec<Node> = Vec::new();
        let mut i: usize = start;
        while i < end
            invariant
                start <= i <= end,
                end <= self.graph.nodes@.len(),
                page_nodes@.len() == i - start,
                forall|k: int|
                    0 <= k < i - start ==> (#[trigger] nodes_view(page_nodes@)[k])
                        == self.graph@.nodes[start + k],
            decreases end - i,
        {
            let n = crate::graph::clone_node(&self.graph.nodes[i]);
            let ghost before = page_nodes@;
            page_nodes.push(n);
            proof {
                assert(nodes_view(page_nodes@)[i - start] == page_nodes@[i - start]@);
                assert forall|k: int|
                    0 <= k < i + 1 - start implies (#[trigger] nodes_view(page_nodes@)[k])
                    == self.graph@.nodes[start + k] by {
                    assert(nodes_view(page_nodes@)[k] == page_nodes@[k]@);
                    if k < i - start {
                        assert(page_nodes@[k] == before[k]);
                        assert(nodes_view(before)[k] == before[k]@);
                    }
                }
            }
            i = i + 1;
        }
        proof {
            assert(nodes_view(page_nodes@) =~= self.graph@.nodes.subrange(
                start as int,
                end as int,
            ));
        }
        let mut edges: Vec<Edge> = Vec::new();
        let mut j: usize = 0;
        while j < self.graph.edges.len()
            invariant
                j <= self.graph.edges@.len(),
                edges@ == spec_incident_edges(
                    nodes_view(page_nodes@),
                    self.graph@.edges.subrange(0, j as int),
                ),
            decreases self.graph.edges@.len() - j,
        {
            let e = self.graph.edges[j];
            if touches(&page_nodes, &e) {
                edges.push(e);
            }
            proof {
                assert(self.graph@.edges.subrange(0, j + 1 as int).drop_last()
                    =~= self.graph@.edges.subrange(0, j as int));
                assert(self.graph@.edges.subrange(0, j + 1 as int).last() == self.graph@.edges[j as int]);
            }
            j = j + 1;
        }
        proof {
            assert(self.graph@.edges.subrange(0, self.graph@.edges.len() as int)
                =~= self.graph@.edges);
        }
        proof {
            assert(total_u64 <= MAX_STORE_ENTRIES as u64);
            assert((((total_u64 + page_size as u64 - 1) as int) / ((page_size as u64) as int))
                < 0x1_0000_0000) by (nonlinear_arith)
                requires
                    total_u64 <= 0x0FFF_FFFFu64 && 1 <= page_size <= 0xFFFF_FFFFu32,
            ;
        }
        let total_pages_u64 = (total_u64 + page_size as u64 - 1) / (page_size as u64);
        let r = PaginatedGraphData {
            nodes: page_nodes,
            edges,
            metadata: clone_store(&self.graph.metadata),
            total_nodes: self.graph.nodes.len(),
            total_edges: self.graph.edges.len(),
            total_pages: total_pages_u64 as u32,
            current_page: page,
        };
        Ok(r)
    }
}


/// The update pairs reduced to id and packed state.
pub open spec fn updates_view(s: Seq<(u16, Node)>) -> Seq<(u16, BinaryNodeData)> {
    s.map_values(|p: (u16, Node)| (p.0, p.1.data))
}

/// Every node carrying the id gets the packed state; the rest keep theirs.
pub open spec fn spec_apply_one_update(
    nodes: Seq<NodeView>,
    id: u32,
    data: BinaryNodeData,
) -> Seq<NodeView> {
    Seq::new(
        nodes.len(),
        |i: int|
            if nodes[i].id == id {
                NodeView { data, ..nodes[i] }
            } else {
                nodes[i]
            },
    )
}

/// The first `n` updates applied in order; a later update of the same id
/// wins.
pub open spec fn spec_apply_updates(
    nodes: Seq<NodeView>,
    updates: Seq<(u16, BinaryNodeData)>,
    n: int,
) -> Seq<NodeView>
    decreases n,
{
    if n <= 0 {
        nodes
    } else {
        spec_apply_one_update(
            spec_apply_updates(nodes, updates, n - 1),
            updates[n - 1].0 as u32,
            updates[n - 1].1,
        )
    }
}

/// Each node's packed state replaced by the executor's output at its
/// index; nodes beyond the output keep theirs.
pub open spec fn spec_apply_step(
    nodes: Seq<NodeView>,
    updated: Seq<BinaryNodeData>,
) -> Seq<NodeView> {
    Seq::new(
        nodes.len(),
        |i: int|
            if i < updated.len() {
                NodeView { data: updated[i], ..nodes[i] }
            } else {
                nodes[i]
            },
    )
}

fn apply_one_update(nodes: &mut Vec<Node>, id: u32, data: BinaryNodeData)
    ensures
        nodes_view(final(nodes)@) == spec_apply_one_update(nodes_view(old(nodes)@), id, data),
        final(nodes)@.len() == old(nodes)@.len(),
{
    let ghost orig = nodes@;
    let ghost target = spec_apply_one_update(nodes_view(orig), id, data);
    let mut i: usize = 0;
    while i < nodes.len()
        invariant
            i <= nodes@.len(),
            nodes@.len() == orig.len(),
            target == spec_apply_one_update(nodes_view(orig), id, data),
            forall|k: int| 0 <= k < i ==> (#[trigger] nodes@[k])@ == target[k],
            forall|k: int| i <= k < orig.len() ==> nodes@[k] == orig[k],
        decreases nodes@.len() - i,
    {
        proof {
            assert(nodes_view(orig)[i as int] == orig[i as int]@);
        }
        if nodes[i].id == id {
            let mut nn = crate::graph::clone_node(&nodes[i]);
            nn.data = data;
            nodes.set(i, nn);
        }
        i = i + 1;
    }
    proof {
        assert forall|k: int| 0 <= k < orig.len() implies nodes_view(nodes@)[k] == target[k] by {
            assert(nodes_view(nodes@)[k] == nodes@[k]@);
        }
        assert(nodes_view(nodes@) =~= target);
    }
}

impl GraphService {
    /// Applies client position overrides: each pair names a node id and
    /// carries the packed state that every node with that id takes on, in
    /// order, a later pair winning.
    pub fn update_node_positions(&mut self, updates: Vec<(u16, Node)>) -> (r: Result<
        (),
        ServiceError,
    >)
        ensures
            r is Ok,
            nodes_view(final(self).graph.nodes@) == spec_apply_updates(
                nodes_view(old(self).graph.nodes@),
                updates_view(updates@),
                updates@.len() as int,
            ),
            final(self).graph.edges == old(self).graph.edges,
            final(self).graph.metadata == old(self).graph.metadata,
            final(self).graph.id_to_metadata == old(self).graph.id_to_metadata,
            final(self).cache == old(self).cache,
            final(self).cache_enabled == old(self).cache_enabled,
            final(self).rebuild_in_progress == old(self).rebuild_in_progress,
            final(self).gpu_init == old(self).gpu_init,
    {
        let ghost orig = nodes_view(self.graph.nodes@);
        let ghost uv = updates_view(updates@);
        let mut j: usize = 0;
        while j < updates.len()
            invariant
                j <= updates@.len(),
                uv == updates_view(updates@),
                nodes_view(self.graph.nodes@) == spec_apply_updates(orig, uv, j as int),
                self.graph.edges == old(self).graph.edges,
                self.graph.metadata == old(self).graph.metadata,
                self.graph.id_to_metadata == old(self).graph.id_to_metadata,
                self.cache == old(self).cache,
                self.cache_enabled == old(self).cache_enabled,
                self.rebuild_in_progress == old(self).rebuild_in_progress,
                self.gpu_init == old(self).gpu_init,
            decreases updates@.len() - j,
        {
            proof {
                assert(uv[j as int] == (updates@[j as int].0, updates@[j as int].1.data));
            }
            let id16 = updates[j].0;
            let data = updates[j].1.data;
            apply_one_update(&mut self.graph.nodes, id16 as u32, data);
            j = j + 1;
        }
        Ok(())
    }

    /// Writes the executor's output back into the nodes, index for index,
    /// preserving node order; returns how many nodes took a new state.
    pub fn apply_step_results(&mut self, updated: &Vec<BinaryNodeData>) -> (count: usize)
        ensures
            count == if updated@.len() < old(self).graph.nodes@.len() {
                updated@.len()
            } else {
                old(self).graph.nodes@.len()
            },
            nodes_view(final(self).graph.nodes@) == spec_apply_step(
                nodes_view(old(self).graph.nodes@),
                updated@,
            ),
            final(self).graph.edges == old(self).graph.edges,
            final(self).graph.metadata == old(self).graph.metadata,
            final(self).graph.id_to_metadata == old(self).graph.id_to_metadata,
            final(self).cache == old(self).cache,
            final(self).cache_enabled == old(self).cache_enabled,
            final(self).rebuild_in_progress == old(self).rebuild_in_progress,
            final(self).gpu_init == old(self).gpu_init,
    {
        let ghost orig = self.graph.nodes@;
        let ghost target = spec_apply_step(nodes_view(orig), updated@);
        let n = self.graph.nodes.len();
        let m = updated.len();
        let count = if m < n {
            m
        } else {
            n
        };
        let mut i: usize = 0;
        while i < count
            invariant
                i <= count,
                count == if updated@.len() < orig.len() {
                    updated@.len()
                } else {
                    orig.len()
                },
                self.graph.nodes@.len() == orig.len(),
                target == spec_apply_step(nodes_view(orig), updated@),
                forall|k: int| 0 <= k < i ==> (#[trigger] self.graph.nodes@[k])@ == target[k],
                forall|k: int| i <= k < orig.len() ==> self.graph.nodes@[k] == orig[k],
                self.graph.edges == old(self).graph.edges,
                self.graph.metadata == old(self).graph.metadata,
                self.graph.id_to_metadata == old(self).graph.id_to_metadata,
                self.cache == old(self).cache,
                self.cache_enabled == old(self).cache_enabled,
                self.rebuild_in_progress == old(self).rebuild_in_progress,
                self.gpu_init == old(self).gpu_init,
            decreases count - i,
        {
            let mut nn = crate::graph::clone_node(&self.graph.nodes[i]);
            nn.data = updated[i];
            self.graph.nodes.set(i, nn);
            proof {
                assert(nodes_view(orig)[i as int] == orig[i as int]@);
            }
            i = i + 1;
        }
        proof {
            assert forall|k: int|
                0 <= k < orig.len() implies nodes_view(self.graph.nodes@)[k] == target[k] by {
                assert(nodes_view(self.graph.nodes@)[k] == self.graph.nodes@[k]@);
                if k >= count {
                    assert(nodes_view(orig)[k] == orig[k]@);
                }
            }
            assert(nodes_view(self.graph.nodes@) =~= target);
        }
        count
    }

    /// Serves one layout request after the executor ran the asked number
    /// of steps: installs the stepped records if there are any and packs
    /// the positions into the reply frame. Zero iterations step nothing,
    /// change nothing, and serve the current positions as they are.
    pub fn apply_layout_result(&mut self, iterations: u32, stepped: Option<Vec<BinaryNodeData>>)
        -> (frame: Vec<u8>)
        requires
            iterations == 0 ==> stepped is None,
        ensures
            stepped is None ==> *final(self) == *old(self) && frame@ == spec_encode_frame(
                spec_node_records(nodes_view(old(self).graph.nodes@)),
            ),
            stepped matches Some(v) ==> {
                &&& nodes_view(final(self).graph.nodes@) == spec_apply_step(
                    nodes_view(old(self).graph.nodes@),
                    v@,
                )
                &&& frame@ == spec_encode_frame(
                    spec_node_records(nodes_view(final(self).graph.nodes@)),
                )
                &&& final(self).cache is None
                &&& final(self).graph.edges == old(self).graph.edges
                &&& final(self).graph.metadata == old(self).graph.metadata
                &&& final(self).graph.id_to_metadata == old(self).graph.id_to_metadata
            },
    {
        match stepped {
            Some(v) => {
                self.apply_step_results(&v);
                self.clear_position_cache();
                positions_to_binary(&self.graph.nodes)
            },
            None => positions_to_binary(&self.graph.nodes),
        }
    }
}

} // verus!
