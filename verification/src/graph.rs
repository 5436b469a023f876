//! The graph that the server lays out: nodes built from file metadata,
//! weighted undirected edges, and the id maps that tie them together.

use crate::metadata::{Metadata, MetadataStore, MetadataView, topics_view};
use crate::record::{BinaryNodeData, Vec3Data};
use vstd::prelude::*;

verus! {

/// Mass derived from a file's size: one step per 256 bytes, starting at 1,
/// clamped to the byte range. Larger files never weigh less.
pub open spec fn spec_mass_of_size(size: u64) -> u8 {
    if size / 256 >= 255 {
        255u8
    } else {
        (1 + size / 256) as u8
    }
}

/// Computes the mass of a node from its file's size.
pub fn mass_from_file_size(size: u64) -> (r: u8)
    ensures
        r == spec_mass_of_size(size),
        r >= 1,
{
    let step = size / 256;
    if step >= 255 {
        255
    } else {
        (step as u8) + 1
    }
}

/// The mass mapping is monotone: a larger file never gets a smaller mass.
pub proof fn lemma_mass_monotonic(a: u64, b: u64)
    requires
        a <= b,
    ensures
        spec_mass_of_size(a) <= spec_mass_of_size(b),
{
    assert(a / 256 <= b / 256) by (nonlinear_arith)
        requires
            a <= b,
    ;
}

/// A graph vertex standing for one markdown file, with its live packed
/// simulation state.
#[derive(Debug, Clone)]
pub struct Node {
    /// The stable numeric identity used in edges.
    pub id: u32,
    /// The file name stem, the human-readable key.
    pub metadata_id: String,
    /// Display name.
    pub label: String,
    /// Display size as delivered by the producer, if the file was known.
    pub size: Option<String>,
    pub file_size: u64,
    /// String facts about the file, in insertion order.
    pub metadata: Vec<(String, String)>,
    /// The packed simulation state.
    pub data: BinaryNodeData,
}

/// The mathematical image of one node.
#[verifier::ext_equal]
pub ghost struct NodeView {
    pub id: u32,
    pub metadata_id: Seq<char>,
    pub label: Seq<char>,
    pub size: Option<Seq<char>>,
    pub file_size: u64,
    pub metadata: Seq<(Seq<char>, Seq<char>)>,
    pub data: BinaryNodeData,
}

/// The pairwise view of a string map's entries.
pub open spec fn string_pairs_view(s: Seq<(String, String)>) -> Seq<(Seq<char>, Seq<char>)> {
    s.map_values(|p: (String, String)| (p.0@, p.1@))
}

impl View for Node {
    type V = NodeView;

    open spec fn view(&self) -> NodeView {
        NodeView {
            id: self.id,
            metadata_id: self.metadata_id@,
            label: self.label@,
            size: match self.size {
                Some(s) => Some(s@),
                None => None,
            },
            file_size: self.file_size,
            metadata: string_pairs_view(self.metadata@),
            data: self.data,
        }
    }
}

/// The view of a node list.
pub open spec fn nodes_view(s: Seq<Node>) -> Seq<NodeView> {
    s.map_values(|n: Node| n@)
}

/// An undirected edge between two node ids, held canonically with
/// `source < target`; the weight is the accumulated hyperlink count.
#[derive(Debug, Clone, Copy, PartialEq, Eq, Structural)]
pub struct Edge {
    pub source: u32,
    pub target: u32,
    pub weight: u64,
}

/// The authoritative graph state: node order is fixed at build time and
/// indexes the packed compute buffer.
#[derive(Debug, Clone)]
pub struct GraphData {
    pub nodes: Vec<Node>,
    pub edges: Vec<Edge>,
    pub metadata: MetadataStore,
    pub id_to_metadata: Vec<(u32, String)>,
}

/// The mathematical image of a graph.
#[verifier::ext_equal]
pub ghost struct GraphView {
    pub nodes: Seq<NodeView>,
    pub edges: Seq<Edge>,
    pub metadata: Seq<MetadataView>,
    pub id_to_metadata: Seq<(u32, Seq<char>)>,
}

/// The pairwise view of the id map.
pub open spec fn id_pairs_view(s: Seq<(u32, String)>) -> Seq<(u32, Seq<char>)> {
    s.map_values(|p: (u32, String)| (p.0, p.1@))
}

impl View for GraphData {
    type V = GraphView;

    open spec fn view(&self) -> GraphView {
        GraphView {
            nodes: nodes_view(self.nodes@),
            edges: self.edges@,
            metadata: self.metadata@,
            id_to_metadata: id_pairs_view(self.id_to_metadata@),
        }
    }
}

/// Whether some node carries the id.
pub open spec fn spec_has_node_id(nodes: Seq<NodeView>, id: u32) -> bool {
    exists|i: int| 0 <= i < nodes.len() && nodes[i].id == id
}

/// Node ids are pairwise distinct.
pub open spec fn nodes_wf(nodes: Seq<NodeView>) -> bool {
    forall|i: int, j: int| 0 <= i < j < nodes.len() ==> nodes[i].id != nodes[j].id
}

/// Edges are canonical, positive, loop-free, endpoint-closed and pairwise
/// distinct under unordered-pair equality.
pub open spec fn edges_wf(nodes: Seq<NodeView>, edges: Seq<Edge>) -> bool {
    &&& forall|k: int|
        0 <= k < edges.len() ==> {
            &&& (#[trigger] edges[k]).source < edges[k].target
            &&& edges[k].weight >= 1
            &&& spec_has_node_id(nodes, edges[k].source)
            &&& spec_has_node_id(nodes, edges[k].target)
        }
    &&& forall|k: int, l: int|
        0 <= k < l < edges.len() ==> !((edges[k].source == edges[l].source && edges[k].target
            == edges[l].target) || (edges[k].source == edges[l].target && edges[k].target
            == edges[l].source))
}

/// The id map mirrors the node list: one pair per node, in node order,
/// mapping its id to its metadata id.
pub open spec fn id_map_wf(g: GraphView) -> bool {
    &&& g.id_to_metadata.len() == g.nodes.len()
    &&& forall|i: int|
        0 <= i < g.nodes.len() ==> #[trigger] g.id_to_metadata[i] == (
        g.nodes[i].id,
        g.nodes[i].metadata_id,
        )
}

/// A well-formed graph.
pub open spec fn graph_wf(g: GraphView) -> bool {
    &&& nodes_wf(g.nodes)
    &&& edges_wf(g.nodes, g.edges)
    &&& id_map_wf(g)
}

impl GraphData {
    /// The empty graph.
    pub fn new() -> (r: GraphData)
        ensures
            r@.nodes == Seq::<NodeView>::empty(),
            r@.edges == Seq::<Edge>::empty(),
            r@.metadata == Seq::<MetadataView>::empty(),
            r@.id_to_metadata == Seq::<(u32, Seq<char>)>::empty(),
            graph_wf(r@),
    {
        let r = GraphData {
            nodes: Vec::new(),
            edges: Vec::new(),
            metadata: MetadataStore { entries: Vec::new() },
            id_to_metadata: Vec::new(),
        };
        proof {
            assert(r@.nodes =~= Seq::<NodeView>::empty());
            assert(r@.edges =~= Seq::<Edge>::empty());
            assert(r@.metadata =~= Seq::<MetadataView>::empty());
            assert(r@.id_to_metadata =~= Seq::<(u32, Seq<char>)>::empty());
        }
        r
    }
}

/// Copies one metadata entry, preserving its view.
pub fn clone_metadata(m: &Metadata) -> (r: Metadata)
    ensures
        r@ == m@,
{
    let mut topics: Vec<(String, u64)> = Vec::new();
    let mut i: usize = 0;
    while i < m.topic_counts.len()
        invariant
            i <= m.topic_counts@.len(),
            topics@.len() == i,
            forall|k: int|
                0 <= k < i ==> #[trigger] topics@[k].0@ == m.topic_counts@[k].0@ && topics@[k].1
                    == m.topic_counts@[k].1,
        decreases m.topic_counts@.len() - i,
    {
        let name = m.topic_counts[i].0.clone();
        let count = m.topic_counts[i].1;
        topics.push((name, count));
        i = i + 1;
    }
    proof {
        assert(topics_view(topics@) =~= topics_view(m.topic_counts@));
    }
    let r = Metadata {
        file_name: m.file_name.clone(),
        file_size: m.file_size,
        node_size: m.node_size.clone(),
        hyperlink_count: m.hyperlink_count,
        sha1: m.sha1.clone(),
        node_id: m.node_id,
        last_modified: m.last_modified.clone(),
        perplexity_link: m.perplexity_link.clone(),
        last_perplexity_process: match &m.last_perplexity_process {
            Some(p) => Some(p.clone()),
            None => None,
        },
        topic_counts: topics,
    };
    r
}

/// Copies a whole store, preserving its view.
pub fn clone_store(store: &MetadataStore) -> (r: MetadataStore)
    ensures
        r@ == store@,
{
    let mut entries: Vec<Metadata> = Vec::new();
    let mut i: usize = 0;
    while i < store.entries.len()
        invariant
            i <= store.entries@.len(),
            entries@.len() == i,
            forall|k: int| 0 <= k < i ==> (#[trigger] entries@[k])@ == store.entries@[k]@,
        decreases store.entries@.len() - i,
    {
        let e = clone_metadata(&store.entries[i]);
        entries.push(e);
        i = i + 1;
    }
    let r = MetadataStore { entries };
    proof {
        assert(r@ =~= store@);
    }
    r
}

/// Copies one node, preserving its view.
pub fn clone_node(n: &Node) -> (r: Node)
    ensures
        r@ == n@,
{
    let mut pairs: Vec<(String, String)> = Vec::new();
    let mut i: usize = 0;
    while i < n.metadata.len()
        invariant
            i <= n.metadata@.len(),
            pairs@.len() == i,
            forall|k: int|
                0 <= k < i ==> #[trigger] pairs@[k].0@ == n.metadata@[k].0@ && pairs@[k].1@
                    == n.metadata@[k].1@,
        decreases n.metadata@.len() - i,
    {
        let k = n.metadata[i].0.clone();
        let v = n.metadata[i].1.clone();
        pairs.push((k, v));
        i = i + 1;
    }
    proof {
        assert(string_pairs_view(pairs@) =~= string_pairs_view(n.metadata@));
    }
    let r = Node {
        id: n.id,
        metadata_id: n.metadata_id.clone(),
        label: n.label.clone(),
        size: match &n.size {
            Some(s) => Some(s.clone()),
            None => None,
        },
        file_size: n.file_size,
        metadata: pairs,
        data: n.data,
    };
    r
}

/// Copies a node list, preserving the views.
pub fn clone_nodes(nodes: &Vec<Node>) -> (r: Vec<Node>)
    ensures
        nodes_view(r@) == nodes_view(nodes@),
        r@.len() == nodes@.len(),
{
    let mut out: Vec<Node> = Vec::new();
    let mut i: usize = 0;
    while i < nodes.len()
        invariant
            i <= nodes@.len(),
            out@.len() == i,
            forall|k: int| 0 <= k < i ==> (#[trigger] out@[k])@ == nodes@[k]@,
        decreases nodes@.len() - i,
    {
        let n = clone_node(&nodes[i]);
        out.push(n);
        i = i + 1;
    }
    proof {
        assert(nodes_view(out@) =~= nodes_view(nodes@));
    }
    out
}

} // verus!
