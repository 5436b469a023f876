//! Graph construction: a pure, deterministic function from the metadata
//! store to the graph. One node per distinct file-name stem in entry
//! order, stable numeric ids reused from the store or assigned fresh above
//! them, and one canonical undirected edge per linked pair with the
//! hyperlink counts of both directions accumulated into its weight.

use crate::graph::{
    mass_from_file_size, spec_has_node_id, spec_mass_of_size, Edge, GraphData, GraphView, Node,
    NodeView, clone_store, edges_wf, graph_wf, id_pairs_view, nodes_view, nodes_wf,
    string_pairs_view,
};
use crate::metadata::{entries_view, store_wf, topics_view, Metadata, MetadataStore, MetadataView, string_eq};
use crate::record::{BinaryNodeData, Vec3Data};
use crate::text::{
    spec_md_suffix, spec_strip_md, spec_strip_one_md, spec_u64_string, strip_md_suffix,
    strip_one_md_suffix, u64_to_string,
};
use vstd::prelude::*;
use vstd::string::StringExecFns;

verus! {

/// Most entries a store may hold: keeps fresh ids inside the 32-bit range.
pub const MAX_STORE_ENTRIES: usize = 0x0FFF_FFFF;

/// Whether the list of stems already holds this one.
pub open spec fn spec_contains_stem(stems: Seq<Seq<char>>, s: Seq<char>) -> bool {
    exists|i: int| 0 <= i < stems.len() && stems[i] == s
}

/// The distinct file-name stems of the store, in first-occurrence order.
/// Each one becomes a node's metadata id.
pub open spec fn spec_stems(entries: Seq<MetadataView>) -> Seq<Seq<char>>
    decreases entries.len(),
{
    if entries.len() == 0 {
        Seq::empty()
    } else {
        let prev = spec_stems(entries.drop_last());
        let st = spec_strip_md(entries.last().file_name);
        if spec_contains_stem(prev, st) {
            prev
        } else {
            prev.push(st)
        }
    }
}

/// The first entry under the given file name, if any.
pub open spec fn spec_find_entry(entries: Seq<MetadataView>, name: Seq<char>) -> Option<
    MetadataView,
>
    decreases entries.len(),
{
    if entries.len() == 0 {
        None
    } else if entries.first().file_name == name {
        Some(entries.first())
    } else {
        spec_find_entry(entries.drop_first(), name)
    }
}

/// The entry a stem was derived from, looked up by re-appending `.md`.
pub open spec fn spec_lookup_stem_entry(entries: Seq<MetadataView>, stem: Seq<char>) -> Option<
    MetadataView,
> {
    spec_find_entry(entries, stem + spec_md_suffix())
}

/// The stable id stored for a stem, if its entry recorded one.
pub open spec fn spec_stored_id(entries: Seq<MetadataView>, stem: Seq<char>) -> Option<u32> {
    match spec_lookup_stem_entry(entries, stem) {
        Some(e) => e.node_id,
        None => None,
    }
}

/// One above the largest stored id, or zero if none is stored: the first
/// fresh id.
pub open spec fn spec_base_id(entries: Seq<MetadataView>) -> u32
    decreases entries.len(),
{
    if entries.len() == 0 {
        0u32
    } else {
        let rest = spec_base_id(entries.drop_last());
        match entries.last().node_id {
            Some(v) => if v + 1 > rest {
                (v + 1) as u32
            } else {
                rest
            },
            None => rest,
        }
    }
}

/// The id of the node built for the `k`-th stem: the stored id if the
/// entry recorded one, else a fresh id above every stored one.
pub open spec fn spec_node_id_at(
    entries: Seq<MetadataView>,
    stems: Seq<Seq<char>>,
    k: int,
) -> u32 {
    match spec_stored_id(entries, stems[k]) {
        Some(v) => v,
        None => (spec_base_id(entries) + k) as u32,
    }
}

/// The string facts recorded on a node built from an entry, in order.
pub open spec fn spec_meta_pairs(e: MetadataView) -> Seq<(Seq<char>, Seq<char>)> {
    let name = spec_strip_one_md(e.file_name);
    let base = seq![
        ("fileName"@, e.file_name),
        ("name"@, name),
        ("metadataId"@, name),
        ("fileSize"@, spec_u64_string(e.file_size as nat)),
        ("nodeSize"@, e.node_size),
        ("hyperlinkCount"@, spec_u64_string(e.hyperlink_count as nat)),
        ("sha1"@, e.sha1),
        ("lastModified"@, e.last_modified),
    ];
    let with_link = if e.perplexity_link.len() > 0 {
        base.push(("perplexityLink"@, e.perplexity_link))
    } else {
        base
    };
    match e.last_perplexity_process {
        Some(p) => with_link.push(("lastPerplexityProcess"@, p)),
        None => with_link,
    }
}

/// The node built for the `k`-th stem: populated from its entry when the
/// re-appended name finds one, bare otherwise; active flag set, zero
/// initial position and velocity, mass derived from the file size.
pub open spec fn spec_node_at(entries: Seq<MetadataView>, stems: Seq<Seq<char>>, k: int) -> NodeView {
    let stem = stems[k];
    let id = spec_node_id_at(entries, stems, k);
    match spec_lookup_stem_entry(entries, stem) {
        Some(e) => NodeView {
            id,
            metadata_id: stem,
            label: spec_strip_md(e.file_name),
            size: Some(e.node_size),
            file_size: e.file_size,
            metadata: spec_meta_pairs(e),
            data: BinaryNodeData {
                position: Vec3Data { x: 0u32, y: 0u32, z: 0u32 },
                velocity: Vec3Data { x: 0u32, y: 0u32, z: 0u32 },
                mass: spec_mass_of_size(e.file_size),
                flags: 1u8,
                padding: [0u8, 0u8],
            },
        },
        None => NodeView {
            id,
            metadata_id: stem,
            label: stem,
            size: None,
            file_size: 0u64,
            metadata: Seq::empty(),
            data: BinaryNodeData {
                position: Vec3Data { x: 0u32, y: 0u32, z: 0u32 },
                velocity: Vec3Data { x: 0u32, y: 0u32, z: 0u32 },
                mass: spec_mass_of_size(0),
                flags: 1u8,
                padding: [0u8, 0u8],
            },
        },
    }
}

/// The node list of a store.
pub open spec fn spec_nodes(entries: Seq<MetadataView>) -> Seq<NodeView> {
    Seq::new(spec_stems(entries).len(), |k: int| spec_node_at(entries, spec_stems(entries), k))
}

/// The id of the first node with the given metadata id, if any.
pub open spec fn spec_find_node_id(nodes: Seq<NodeView>, stem: Seq<char>) -> Option<u32>
    decreases nodes.len(),
{
    if nodes.len() == 0 {
        None
    } else if nodes.first().metadata_id == stem {
        Some(nodes.first().id)
    } else {
        spec_find_node_id(nodes.drop_first(), stem)
    }
}

/// The canonical unordered key of a pair of ids.
pub open spec fn spec_edge_key(a: u32, b: u32) -> (u32, u32) {
    if a < b {
        (a, b)
    } else {
        (b, a)
    }
}

/// Adds `w` to the edge of the unordered pair of `a` and `b`, creating it at the end of
/// the list if the pair is new.
pub open spec fn spec_acc_edge(acc: Seq<Edge>, a: u32, b: u32, w: u64) -> Seq<Edge>
    decreases acc.len(),
{
    let key = spec_edge_key(a, b);
    if acc.len() == 0 {
        seq![Edge { source: key.0, target: key.1, weight: w }]
    } else if acc.first().source == key.0 && acc.first().target == key.1 {
        seq![
            Edge { source: key.0, target: key.1, weight: (acc.first().weight + w) as u64 },
        ] + acc.drop_first()
    } else {
        seq![acc.first()] + spec_acc_edge(acc.drop_first(), a, b, w)
    }
}

/// One topic reference of one entry: resolve the target stem to a node;
/// skip self references, missing endpoints and zero counts; otherwise
/// accumulate the count on the pair's edge.
pub open spec fn spec_topic_step(
    acc: Seq<Edge>,
    nodes: Seq<NodeView>,
    src_id: u32,
    topic: (Seq<char>, u64),
) -> Seq<Edge> {
    match spec_find_node_id(nodes, spec_strip_md(topic.0)) {
        Some(tid) => if tid != src_id && topic.1 > 0 {
            spec_acc_edge(acc, src_id, tid, topic.1)
        } else {
            acc
        },
        None => acc,
    }
}

/// The first `n` topic references of one entry, folded left to right.
pub open spec fn spec_topics_prefix(
    acc: Seq<Edge>,
    nodes: Seq<NodeView>,
    src_id: u32,
    topics: Seq<(Seq<char>, u64)>,
    n: int,
) -> Seq<Edge>
    decreases n,
{
    if n <= 0 {
        acc
    } else {
        spec_topic_step(
            spec_topics_prefix(acc, nodes, src_id, topics, n - 1),
            nodes,
            src_id,
            topics[n - 1],
        )
    }
}

/// The edges contributed by the first `n` entries.
pub open spec fn spec_entries_edges_prefix(
    nodes: Seq<NodeView>,
    entries: Seq<MetadataView>,
    n: int,
) -> Seq<Edge>
    decreases n,
{
    if n <= 0 {
        Seq::empty()
    } else {
        let acc = spec_entries_edges_prefix(nodes, entries, n - 1);
        let e = entries[n - 1];
        match spec_find_node_id(nodes, spec_strip_md(e.file_name)) {
            Some(sid) => spec_topics_prefix(acc, nodes, sid, e.topic_counts, e.topic_counts.len() as int),
            None => acc,
        }
    }
}

/// The edge list of a store.
pub open spec fn spec_edges(entries: Seq<MetadataView>) -> Seq<Edge> {
    spec_entries_edges_prefix(spec_nodes(entries), entries, entries.len() as int)
}

/// The whole graph of a store: a function of the entry views alone.
pub open spec fn spec_build_graph(entries: Seq<MetadataView>) -> GraphView {
    let nodes = spec_nodes(entries);
    GraphView {
        nodes,
        edges: spec_edges(entries),
        metadata: entries,
        id_to_metadata: Seq::new(nodes.len(), |k: int| (nodes[k].id, nodes[k].metadata_id)),
    }
}

/// The sum of the first `n` topic counts of a list.
pub open spec fn spec_topics_total(topics: Seq<(Seq<char>, u64)>, n: int) -> int
    decreases n,
{
    if n <= 0 {
        0
    } else {
        spec_topics_total(topics, n - 1) + topics[n - 1].1
    }
}

/// The sum of every topic count of the first `n` entries.
pub open spec fn spec_counts_total(entries: Seq<MetadataView>, n: int) -> int
    decreases n,
{
    if n <= 0 {
        0
    } else {
        spec_counts_total(entries, n - 1) + spec_topics_total(
            entries[n - 1].topic_counts,
            entries[n - 1].topic_counts.len() as int,
        )
    }
}

/// The sum of the accumulated edge weights.
pub open spec fn spec_edges_total(acc: Seq<Edge>) -> int
    decreases acc.len(),
{
    if acc.len() == 0 {
        0
    } else {
        acc.first().weight + spec_edges_total(acc.drop_first())
    }
}


/// There are never more stems than entries.
pub proof fn lemma_stems_len(entries: Seq<MetadataView>)
    ensures
        spec_stems(entries).len() <= entries.len(),
    decreases entries.len(),
{
    if entries.len() > 0 {
        lemma_stems_len(entries.drop_last());
    }
}

/// Stems are pairwise distinct: the dedup check admits each one once.
pub proof fn lemma_stems_distinct(entries: Seq<MetadataView>)
    ensures
        forall|k: int, l: int|
            0 <= k < l < spec_stems(entries).len() ==> spec_stems(entries)[k] != spec_stems(
                entries,
            )[l],
    decreases entries.len(),
{
    if entries.len() > 0 {
        lemma_stems_distinct(entries.drop_last());
        let prev = spec_stems(entries.drop_last());
        let st = spec_strip_md(entries.last().file_name);
        let stems = spec_stems(entries);
        if !spec_contains_stem(prev, st) {
            assert forall|k: int, l: int| 0 <= k < l < stems.len() implies stems[k] != stems[l] by {
                if l == prev.len() {
                    assert(stems[l] == st);
                    assert(stems[k] == prev[k]);
                }
            }
        }
    }
}

/// What a name lookup yields: a stored entry carrying that name, or the
/// guarantee that no entry carries it.
pub proof fn lemma_find_entry_props(entries: Seq<MetadataView>, name: Seq<char>)
    ensures
        match spec_find_entry(entries, name) {
            Some(e) => e.file_name == name && exists|i: int|
                0 <= i < entries.len() && entries[i] == e,
            None => forall|i: int| 0 <= i < entries.len() ==> entries[i].file_name != name,
        },
    decreases entries.len(),
{
    if entries.len() == 0 {
    } else if entries.first().file_name == name {
        assert(entries[0] == entries.first());
    } else {
        lemma_find_entry_props(entries.drop_first(), name);
        match spec_find_entry(entries.drop_first(), name) {
            Some(e) => {
                let i = choose|i: int|
                    0 <= i < entries.drop_first().len() && entries.drop_first()[i] == e;
                assert(entries[i + 1] == e);
            },
            None => {
                assert forall|i: int|
                    0 <= i < entries.len() implies entries[i].file_name != name by {
                    if i > 0 {
                        assert(entries.drop_first()[i - 1] == entries[i]);
                    }
                }
            },
        }
    }
}

/// A scan that stops at the first matching index computes the lookup.
pub proof fn lemma_find_entry_at(entries: Seq<MetadataView>, name: Seq<char>, k: int)
    requires
        0 <= k < entries.len(),
        entries[k].file_name == name,
        forall|j: int| 0 <= j < k ==> entries[j].file_name != name,
    ensures
        spec_find_entry(entries, name) == Some(entries[k]),
    decreases k,
{
    if k == 0 {
    } else {
        assert(entries.drop_first()[k - 1] == entries[k]);
        assert forall|j: int|
            0 <= j < k - 1 implies entries.drop_first()[j].file_name != name by {
            assert(entries.drop_first()[j] == entries[j + 1]);
        }
        lemma_find_entry_at(entries.drop_first(), name, k - 1);
    }
}

/// A scan that matches nowhere computes an empty lookup.
pub proof fn lemma_find_entry_none(entries: Seq<MetadataView>, name: Seq<char>)
    requires
        forall|j: int| 0 <= j < entries.len() ==> entries[j].file_name != name,
    ensures
        spec_find_entry(entries, name) is None,
    decreases entries.len(),
{
    if entries.len() > 0 {
        assert forall|j: int|
            0 <= j < entries.drop_first().len() implies entries.drop_first()[j].file_name
            != name by {
            assert(entries.drop_first()[j] == entries[j + 1]);
        }
        lemma_find_entry_none(entries.drop_first(), name);
    }
}

/// With stored ids kept below the reserved bound, the base stays at or
/// below it.
pub proof fn lemma_base_id_bound(entries: Seq<MetadataView>)
    requires
        forall|i: int|
            0 <= i < entries.len() ==> match #[trigger] entries[i].node_id {
                Some(v) => v < 0xF000_0000u32,
                None => true,
            },
    ensures
        spec_base_id(entries) <= 0xF000_0000u32,
    decreases entries.len(),
{
    if entries.len() > 0 {
        assert forall|i: int|
            0 <= i < entries.drop_last().len() implies match #[trigger] entries.drop_last()[i].node_id {
            Some(v) => v < 0xF000_0000u32,
            None => true,
        } by {
            assert(entries.drop_last()[i] == entries[i]);
        }
        lemma_base_id_bound(entries.drop_last());
        assert(entries[entries.len() - 1] == entries.last());
    }
}

/// Every stored id lies strictly below the base.
pub proof fn lemma_stored_lt_base(entries: Seq<MetadataView>, i: int)
    requires
        0 <= i < entries.len(),
        entries[i].node_id is Some,
        forall|j: int|
            0 <= j < entries.len() ==> match #[trigger] entries[j].node_id {
                Some(v) => v < 0xF000_0000u32,
                None => true,
            },
    ensures
        entries[i].node_id.unwrap() < spec_base_id(entries),
    decreases entries.len(),
{
    if i == entries.len() - 1 {
        assert(entries.last() == entries[i]);
    } else {
        assert forall|j: int|
            0 <= j < entries.drop_last().len() implies match #[trigger] entries.drop_last()[j].node_id {
            Some(v) => v < 0xF000_0000u32,
            None => true,
        } by {
            assert(entries.drop_last()[j] == entries[j]);
        }
        assert(entries.drop_last()[i] == entries[i]);
        lemma_stored_lt_base(entries.drop_last(), i);
        assert(entries[entries.len() - 1] == entries.last());
    }
}

/// Appending the suffix is injective.
pub proof fn lemma_append_md_inj(a: Seq<char>, b: Seq<char>)
    requires
        a + spec_md_suffix() == b + spec_md_suffix(),
    ensures
        a == b,
{
    assert(spec_md_suffix().len() == 3);
    assert((a + spec_md_suffix()).len() == a.len() + 3);
    assert((b + spec_md_suffix()).len() == b.len() + 3);
    assert(a.len() == b.len());
    assert(a =~= (a + spec_md_suffix()).subrange(0, a.len() as int));
    assert(b =~= (b + spec_md_suffix()).subrange(0, b.len() as int));
}

/// Two distinct stems never receive the same node id.
pub proof fn lemma_node_ids_distinct(entries: Seq<MetadataView>, k: int, l: int)
    requires
        store_wf(entries),
        entries.len() <= MAX_STORE_ENTRIES,
        0 <= k < l < spec_stems(entries).len(),
    ensures
        spec_node_id_at(entries, spec_stems(entries), k) != spec_node_id_at(
            entries,
            spec_stems(entries),
            l,
        ),
{
    let stems = spec_stems(entries);
    lemma_stems_distinct(entries);
    lemma_stems_len(entries);
    lemma_base_id_bound(entries);
    let base = spec_base_id(entries);
    lemma_find_entry_props(entries, stems[k] + spec_md_suffix());
    lemma_find_entry_props(entries, stems[l] + spec_md_suffix());
    match (spec_stored_id(entries, stems[k]), spec_stored_id(entries, stems[l])) {
        (Some(v1), Some(v2)) => {
            let e1 = spec_lookup_stem_entry(entries, stems[k]).unwrap();
            let e2 = spec_lookup_stem_entry(entries, stems[l]).unwrap();
            let i1 = choose|i: int| 0 <= i < entries.len() && entries[i] == e1;
            let i2 = choose|i: int| 0 <= i < entries.len() && entries[i] == e2;
            if stems[k] + spec_md_suffix() == stems[l] + spec_md_suffix() {
                lemma_append_md_inj(stems[k], stems[l]);
                assert(false);
            }
            assert(entries[i1].file_name != entries[i2].file_name);
            assert(i1 != i2);
            if i1 < i2 {
                assert(entries[i1].node_id != entries[i2].node_id);
            } else {
                assert(entries[i2].node_id != entries[i1].node_id);
            }
        },
        (Some(v1), None) => {
            let e1 = spec_lookup_stem_entry(entries, stems[k]).unwrap();
            let i1 = choose|i: int| 0 <= i < entries.len() && entries[i] == e1;
            lemma_stored_lt_base(entries, i1);
        },
        (None, Some(v2)) => {
            let e2 = spec_lookup_stem_entry(entries, stems[l]).unwrap();
            let i2 = choose|i: int| 0 <= i < entries.len() && entries[i] == e2;
            lemma_stored_lt_base(entries, i2);
        },
        (None, None) => {
        },
    }
}

/// The node list of a well-formed store has pairwise distinct ids.
pub proof fn lemma_nodes_wf(entries: Seq<MetadataView>)
    requires
        store_wf(entries),
        entries.len() <= MAX_STORE_ENTRIES,
    ensures
        nodes_wf(spec_nodes(entries)),
{
    let nodes = spec_nodes(entries);
    assert forall|k: int, l: int| 0 <= k < l < nodes.len() implies nodes[k].id != nodes[l].id by {
        lemma_node_ids_distinct(entries, k, l);
    }
}

/// A resolved stem names an id that some node carries.
pub proof fn lemma_find_node_id_props(nodes: Seq<NodeView>, stem: Seq<char>)
    ensures
        match spec_find_node_id(nodes, stem) {
            Some(id) => spec_has_node_id(nodes, id),
            None => true,
        },
    decreases nodes.len(),
{
    if nodes.len() == 0 {
    } else if nodes.first().metadata_id == stem {
        assert(nodes[0] == nodes.first());
    } else {
        lemma_find_node_id_props(nodes.drop_first(), stem);
        match spec_find_node_id(nodes.drop_first(), stem) {
            Some(id) => {
                let i = choose|i: int|
                    0 <= i < nodes.drop_first().len() && nodes.drop_first()[i].id == id;
                assert(nodes[i + 1].id == id);
            },
            None => {},
        }
    }
}

/// A scan that stops at the first metadata-id match computes the node
/// lookup.
pub proof fn lemma_find_node_at(nodes: Seq<NodeView>, stem: Seq<char>, k: int)
    requires
        0 <= k < nodes.len(),
        nodes[k].metadata_id == stem,
        forall|j: int| 0 <= j < k ==> nodes[j].metadata_id != stem,
    ensures
        spec_find_node_id(nodes, stem) == Some(nodes[k].id),
    decreases k,
{
    if k == 0 {
    } else {
        assert(nodes.drop_first()[k - 1] == nodes[k]);
        assert forall|j: int|
            0 <= j < k - 1 implies nodes.drop_first()[j].metadata_id != stem by {
            assert(nodes.drop_first()[j] == nodes[j + 1]);
        }
        lemma_find_node_at(nodes.drop_first(), stem, k - 1);
    }
}

/// A scan that matches no metadata id computes an empty node lookup.
pub proof fn lemma_find_node_none(nodes: Seq<NodeView>, stem: Seq<char>)
    requires
        forall|j: int| 0 <= j < nodes.len() ==> nodes[j].metadata_id != stem,
    ensures
        spec_find_node_id(nodes, stem) is None,
    decreases nodes.len(),
{
    if nodes.len() > 0 {
        assert forall|j: int|
            0 <= j < nodes.drop_first().len() implies nodes.drop_first()[j].metadata_id != stem by {
            assert(nodes.drop_first()[j] == nodes[j + 1]);
        }
        lemma_find_node_none(nodes.drop_first(), stem);
    }
}


/// Accumulated weights never go negative.
pub proof fn lemma_edges_total_nonneg(acc: Seq<Edge>)
    ensures
        spec_edges_total(acc) >= 0,
    decreases acc.len(),
{
    if acc.len() > 0 {
        lemma_edges_total_nonneg(acc.drop_first());
    }
}

/// Each accumulated weight is at most the sum of all of them.
pub proof fn lemma_weight_le_total(acc: Seq<Edge>)
    ensures
        forall|k: int| 0 <= k < acc.len() ==> (#[trigger] acc[k]).weight <= spec_edges_total(acc),
    decreases acc.len(),
{
    if acc.len() > 0 {
        lemma_weight_le_total(acc.drop_first());
        lemma_edges_total_nonneg(acc.drop_first());
        assert forall|k: int|
            0 <= k < acc.len() implies (#[trigger] acc[k]).weight <= spec_edges_total(acc) by {
            if k > 0 {
                assert(acc.drop_first()[k - 1] == acc[k]);
            }
        }
    }
}

/// Accumulating a count preserves the edge invariants, raises the total
/// by exactly the count, and introduces no key but the pair's own.
pub proof fn lemma_acc_edge_props(nodes: Seq<NodeView>, acc: Seq<Edge>, a: u32, b: u32, w: u64)
    requires
        edges_wf(nodes, acc),
        a != b,
        spec_has_node_id(nodes, a),
        spec_has_node_id(nodes, b),
        w >= 1,
        spec_edges_total(acc) + w <= 0xFFFF_FFFF_FFFF_FFFFu64,
    ensures
        edges_wf(nodes, spec_acc_edge(acc, a, b, w)),
        forall|m: int|
            0 <= m < spec_acc_edge(acc, a, b, w).len() ==> ((#[trigger] spec_acc_edge(
                acc,
                a,
                b,
                w,
            )[m]).source, spec_acc_edge(acc, a, b, w)[m].target) == spec_edge_key(a, b)
                || exists|j: int|
                0 <= j < acc.len() && (#[trigger] acc[j]).source == spec_acc_edge(
                    acc,
                    a,
                    b,
                    w,
                )[m].source && acc[j].target == spec_acc_edge(acc, a, b, w)[m].target,
    decreases acc.len(),
{
    let key = spec_edge_key(a, b);
    let res = spec_acc_edge(acc, a, b, w);
    lemma_edges_total_nonneg(acc);
    lemma_weight_le_total(acc);
    if acc.len() == 0 {
        assert(res =~= seq![Edge { source: key.0, target: key.1, weight: w }]);
    } else if acc.first().source == key.0 && acc.first().target == key.1 {
        let bumped = Edge { source: key.0, target: key.1, weight: (acc.first().weight + w) as u64 };
        assert(acc[0] == acc.first());
        assert(acc.first().weight <= spec_edges_total(acc));
        assert(acc.first().weight + w <= 0xFFFF_FFFF_FFFF_FFFFu64);
        assert(res == seq![bumped] + acc.drop_first());
        assert(res.first() == bumped);
        assert(res.drop_first() =~= acc.drop_first());
        assert forall|m: int| 0 <= m < res.len() implies {
            &&& (#[trigger] res[m]).source < res[m].target
            &&& res[m].weight >= 1
            &&& spec_has_node_id(nodes, res[m].source)
            &&& spec_has_node_id(nodes, res[m].target)
        } by {
            if m > 0 {
                assert(res[m] == acc[m]);
            }
        }
        assert forall|m: int, l: int|
            0 <= m < l < res.len() implies !((res[m].source == res[l].source && res[m].target
                == res[l].target) || (res[m].source == res[l].target && res[m].target
                == res[l].source)) by {
            assert(res[l] == acc[l]);
            if m > 0 {
                assert(res[m] == acc[m]);
            } else {
                assert(res[0].source == acc[0].source && res[0].target == acc[0].target);
            }
        }
        assert forall|m: int|
            0 <= m < res.len() implies ((#[trigger] res[m]).source, res[m].target) == key
                || exists|j: int|
                0 <= j < acc.len() && (#[trigger] acc[j]).source == res[m].source && acc[j].target
                    == res[m].target by {
            if m > 0 {
                assert(acc[m].source == res[m].source && acc[m].target == res[m].target);
            }
        }
    } else {
        let tail = acc.drop_first();
        assert(acc[0] == acc.first());
        assert forall|i: int, j: int|
            0 <= i < j < tail.len() implies !((tail[i].source == tail[j].source && tail[i].target
                == tail[j].target) || (tail[i].source == tail[j].target && tail[i].target
                == tail[j].source)) by {
            assert(tail[i] == acc[i + 1]);
            assert(tail[j] == acc[j + 1]);
        }
        assert forall|i: int| 0 <= i < tail.len() implies {
            &&& (#[trigger] tail[i]).source < tail[i].target
            &&& tail[i].weight >= 1
            &&& spec_has_node_id(nodes, tail[i].source)
            &&& spec_has_node_id(nodes, tail[i].target)
        } by {
            assert(tail[i] == acc[i + 1]);
        }
        assert(spec_edges_total(acc) == acc.first().weight + spec_edges_total(tail));
        lemma_edges_total_nonneg(tail);
        lemma_acc_edge_props(nodes, tail, a, b, w);
        let rec = spec_acc_edge(tail, a, b, w);
        assert(res == seq![acc.first()] + rec);
        assert(res.first() == acc.first());
        assert(res.drop_first() =~= rec);
        assert forall|m: int| 0 <= m < res.len() implies {
            &&& (#[trigger] res[m]).source < res[m].target
            &&& res[m].weight >= 1
            &&& spec_has_node_id(nodes, res[m].source)
            &&& spec_has_node_id(nodes, res[m].target)
        } by {
            if m > 0 {
                assert(res[m] == rec[m - 1]);
            }
        }
        assert forall|m: int, l: int|
            0 <= m < l < res.len() implies !((res[m].source == res[l].source && res[m].target
                == res[l].target) || (res[m].source == res[l].target && res[m].target
                == res[l].source)) by {
            assert(res[l] == rec[l - 1]);
            if m > 0 {
                assert(res[m] == rec[m - 1]);
            } else {
                assert(res[0] == acc.first());
                if (rec[l - 1].source, rec[l - 1].target) == key {
                    assert(acc.first().source < acc.first().target);
                    assert(key.0 < key.1);
                } else {
                    let j = choose|j: int|
                        0 <= j < tail.len() && (#[trigger] tail[j]).source == rec[l - 1].source
                            && tail[j].target == rec[l - 1].target;
                    assert(tail[j] == acc[j + 1]);
                }
            }
        }
        assert forall|m: int|
            0 <= m < res.len() implies ((#[trigger] res[m]).source, res[m].target) == key
                || exists|j: int|
                0 <= j < acc.len() && (#[trigger] acc[j]).source == res[m].source && acc[j].target
                    == res[m].target by {
            if m == 0 {
                assert(acc[0].source == res[0].source && acc[0].target == res[0].target);
            } else {
                assert(res[m] == rec[m - 1]);
                if ((rec[m - 1].source, rec[m - 1].target) == key) {
                } else {
                    let j = choose|j: int|
                        0 <= j < tail.len() && (#[trigger] tail[j]).source == rec[m - 1].source
                            && tail[j].target == rec[m - 1].target;
                    assert(acc[j + 1].source == res[m].source && acc[j + 1].target
                        == res[m].target);
                }
            }
        }
    }
}

/// Topic-count prefixes are monotone and start at zero.
pub proof fn lemma_topics_total_mono(topics: Seq<(Seq<char>, u64)>, n1: int, n2: int)
    requires
        0 <= n1 <= n2,
    ensures
        0 <= spec_topics_total(topics, n1) <= spec_topics_total(topics, n2),
    decreases n2,
{
    if n2 > 0 {
        if n1 == n2 {
            lemma_topics_total_mono(topics, 0, n1 - 1);
        } else {
            lemma_topics_total_mono(topics, n1, n2 - 1);
        }
    }
}

/// Entry-count prefixes are monotone and start at zero.
pub proof fn lemma_counts_total_mono(entries: Seq<MetadataView>, n1: int, n2: int)
    requires
        0 <= n1 <= n2,
    ensures
        0 <= spec_counts_total(entries, n1) <= spec_counts_total(entries, n2),
    decreases n2,
{
    if n2 > 0 {
        if n1 == n2 {
            lemma_counts_total_mono(entries, 0, n1 - 1);
            lemma_topics_total_mono(
                entries[n1 - 1].topic_counts,
                0,
                entries[n1 - 1].topic_counts.len() as int,
            );
        } else {
            lemma_counts_total_mono(entries, n1, n2 - 1);
            lemma_topics_total_mono(
                entries[n2 - 1].topic_counts,
                0,
                entries[n2 - 1].topic_counts.len() as int,
            );
        }
    }
}

/// Folding the first `n` topics of an entry preserves the edge invariants
/// and adds at most their counts to the total.
pub proof fn lemma_topics_prefix_props(
    nodes: Seq<NodeView>,
    acc: Seq<Edge>,
    src_id: u32,
    topics: Seq<(Seq<char>, u64)>,
    n: int,
)
    requires
        edges_wf(nodes, acc),
        spec_has_node_id(nodes, src_id),
        0 <= n <= topics.len(),
        spec_edges_total(acc) + spec_topics_total(topics, n) <= 0xFFFF_FFFF_FFFF_FFFFu64,
    ensures
        edges_wf(nodes, spec_topics_prefix(acc, nodes, src_id, topics, n)),
        spec_edges_total(spec_topics_prefix(acc, nodes, src_id, topics, n)) <= spec_edges_total(
            acc,
        ) + spec_topics_total(topics, n),
    decreases n,
{
    lemma_edges_total_nonneg(acc);
    if n > 0 {
        lemma_topics_prefix_props(nodes, acc, src_id, topics, n - 1);
        let prev = spec_topics_prefix(acc, nodes, src_id, topics, n - 1);
        let topic = topics[n - 1];
        lemma_edges_total_nonneg(prev);
        lemma_find_node_id_props(nodes, spec_strip_md(topic.0));
        match spec_find_node_id(nodes, spec_strip_md(topic.0)) {
            Some(tid) => {
                if tid != src_id && topic.1 > 0 {
                    lemma_acc_edge_props(nodes, prev, src_id, tid, topic.1);
                    lemma_acc_edge_total(prev, src_id, tid, topic.1);
                }
            },
            None => {},
        }
    }
}

/// Folding the first `n` entries yields well-formed edges whose total is
/// bounded by their counts.
pub proof fn lemma_entries_edges_props(nodes: Seq<NodeView>, entries: Seq<MetadataView>, n: int)
    requires
        0 <= n <= entries.len(),
        spec_counts_total(entries, n) <= 0xFFFF_FFFF_FFFF_FFFFu64,
    ensures
        edges_wf(nodes, spec_entries_edges_prefix(nodes, entries, n)),
        spec_edges_total(spec_entries_edges_prefix(nodes, entries, n)) <= spec_counts_total(
            entries,
            n,
        ),
    decreases n,
{
    if n > 0 {
        lemma_counts_total_mono(entries, n - 1, n);
        lemma_entries_edges_props(nodes, entries, n - 1);
        let acc = spec_entries_edges_prefix(nodes, entries, n - 1);
        let e = entries[n - 1];
        lemma_find_node_id_props(nodes, spec_strip_md(e.file_name));
        match spec_find_node_id(nodes, spec_strip_md(e.file_name)) {
            Some(sid) => {
                lemma_topics_prefix_props(
                    nodes,
                    acc,
                    sid,
                    e.topic_counts,
                    e.topic_counts.len() as int,
                );
            },
            None => {},
        }
    }
}

/// A built graph is well formed: distinct node ids, canonical loop-free
/// endpoint-closed pairwise-distinct edges, and an id map that mirrors
/// the nodes.
pub proof fn lemma_build_graph_wf(entries: Seq<MetadataView>)
    requires
        store_wf(entries),
        entries.len() <= MAX_STORE_ENTRIES,
        spec_counts_total(entries, entries.len() as int) <= 0xFFFF_FFFF_FFFF_FFFFu64,
    ensures
        graph_wf(spec_build_graph(entries)),
{
    lemma_nodes_wf(entries);
    lemma_entries_edges_props(spec_nodes(entries), entries, entries.len() as int);
}

/// A scan that bumps the first key match computes the accumulation.
pub proof fn lemma_acc_edge_update(acc: Seq<Edge>, a: u32, b: u32, w: u64, k: int)
    requires
        0 <= k < acc.len(),
        (acc[k].source, acc[k].target) == spec_edge_key(a, b),
        forall|j: int|
            0 <= j < k ==> ((#[trigger] acc[j]).source, acc[j].target) != spec_edge_key(a, b),
    ensures
        spec_acc_edge(acc, a, b, w) == acc.update(
            k,
            Edge {
                source: spec_edge_key(a, b).0,
                target: spec_edge_key(a, b).1,
                weight: (acc[k].weight + w) as u64,
            },
        ),
    decreases k,
{
    let key = spec_edge_key(a, b);
    if k == 0 {
        assert(acc[0] == acc.first());
        assert(spec_acc_edge(acc, a, b, w) =~= acc.update(
            0,
            Edge { source: key.0, target: key.1, weight: (acc[0].weight + w) as u64 },
        ));
    } else {
        assert(acc[0] == acc.first());
        assert((acc[0].source, acc[0].target) != key);
        let tail = acc.drop_first();
        assert(tail[k - 1] == acc[k]);
        assert forall|j: int|
            0 <= j < k - 1 implies ((#[trigger] tail[j]).source, tail[j].target) != key by {
            assert(tail[j] == acc[j + 1]);
        }
        lemma_acc_edge_update(tail, a, b, w, k - 1);
        assert(spec_acc_edge(acc, a, b, w) =~= acc.update(
            k,
            Edge { source: key.0, target: key.1, weight: (acc[k].weight + w) as u64 },
        ));
    }
}

/// A scan that matches no key computes an appended fresh edge.
pub proof fn lemma_acc_edge_append(acc: Seq<Edge>, a: u32, b: u32, w: u64)
    requires
        forall|j: int|
            0 <= j < acc.len() ==> ((#[trigger] acc[j]).source, acc[j].target) != spec_edge_key(
                a,
                b,
            ),
    ensures
        spec_acc_edge(acc, a, b, w) == acc.push(
            Edge { source: spec_edge_key(a, b).0, target: spec_edge_key(a, b).1, weight: w },
        ),
    decreases acc.len(),
{
    let key = spec_edge_key(a, b);
    if acc.len() == 0 {
        assert(spec_acc_edge(acc, a, b, w) =~= acc.push(
            Edge { source: key.0, target: key.1, weight: w },
        ));
    } else {
        assert(acc[0] == acc.first());
        let tail = acc.drop_first();
        assert forall|j: int|
            0 <= j < tail.len() implies ((#[trigger] tail[j]).source, tail[j].target) != key by {
            assert(tail[j] == acc[j + 1]);
        }
        lemma_acc_edge_append(tail, a, b, w);
        assert(spec_acc_edge(acc, a, b, w) =~= acc.push(
            Edge { source: key.0, target: key.1, weight: w },
        ));
    }
}


/// The view of a stem list.
pub open spec fn strings_view(s: Seq<String>) -> Seq<Seq<char>> {
    s.map_values(|x: String| x@)
}

/// Accumulating a count raises the total by exactly the count.
pub proof fn lemma_acc_edge_total(acc: Seq<Edge>, a: u32, b: u32, w: u64)
    requires
        spec_edges_total(acc) + w <= 0xFFFF_FFFF_FFFF_FFFFu64,
    ensures
        spec_edges_total(spec_acc_edge(acc, a, b, w)) == spec_edges_total(acc) + w,
    decreases acc.len(),
{
    let key = spec_edge_key(a, b);
    let res = spec_acc_edge(acc, a, b, w);
    lemma_edges_total_nonneg(acc);
    lemma_weight_le_total(acc);
    if acc.len() == 0 {
        assert(res.first() == Edge { source: key.0, target: key.1, weight: w });
        assert(res.drop_first() =~= Seq::<Edge>::empty());
        assert(spec_edges_total(res) == res.first().weight + spec_edges_total(res.drop_first()));
    } else if acc.first().source == key.0 && acc.first().target == key.1 {
        assert(acc[0] == acc.first());
        assert(acc.first().weight <= spec_edges_total(acc));
        lemma_edges_total_nonneg(acc.drop_first());
        assert(res.first() == Edge {
            source: key.0,
            target: key.1,
            weight: (acc.first().weight + w) as u64,
        });
        assert(res.drop_first() =~= acc.drop_first());
        assert(spec_edges_total(res) == res.first().weight + spec_edges_total(res.drop_first()));
        assert(spec_edges_total(acc) == acc.first().weight + spec_edges_total(acc.drop_first()));
    } else {
        lemma_edges_total_nonneg(acc.drop_first());
        lemma_acc_edge_total(acc.drop_first(), a, b, w);
        assert(res.first() == acc.first());
        assert(res.drop_first() =~= spec_acc_edge(acc.drop_first(), a, b, w));
        assert(spec_edges_total(res) == res.first().weight + spec_edges_total(res.drop_first()));
        assert(spec_edges_total(acc) == acc.first().weight + spec_edges_total(acc.drop_first()));
    }
}

/// Looks an entry up by file name: the index of the first match.
fn find_entry_index(entries: &Vec<Metadata>, name: &String) -> (r: Option<usize>)
    ensures
        match r {
            Some(i) => i < entries@.len() && spec_find_entry(entries_view(entries@), name@)
                == Some(entries@[i as int]@),
            None => spec_find_entry(entries_view(entries@), name@) is None,
        },
{
    let ghost ev = entries_view(entries@);
    let mut i: usize = 0;
    while i < entries.len()
        invariant
            i <= entries@.len(),
            ev == entries_view(entries@),
            forall|k: int| 0 <= k < i ==> (#[trigger] ev[k]).file_name != name@,
        decreases entries@.len() - i,
    {
        if string_eq(&entries[i].file_name, name) {
            proof {
                assert(ev[i as int] == entries@[i as int]@);
                lemma_find_entry_at(ev, name@, i as int);
            }
            return Some(i);
        }
        proof {
            assert(ev[i as int] == entries@[i as int]@);
        }
        i = i + 1;
    }
    proof {
        lemma_find_entry_none(ev, name@);
    }
    None
}

/// Resolves a metadata id to the id of the first node carrying it.
pub fn find_node_id(nodes: &Vec<Node>, stem: &String) -> (r: Option<u32>)
    ensures
        r == spec_find_node_id(nodes_view(nodes@), stem@),
{
    let ghost nv = nodes_view(nodes@);
    let mut i: usize = 0;
    while i < nodes.len()
        invariant
            i <= nodes@.len(),
            nv == nodes_view(nodes@),
            forall|k: int| 0 <= k < i ==> (#[trigger] nv[k]).metadata_id != stem@,
        decreases nodes@.len() - i,
    {
        if string_eq(&nodes[i].metadata_id, stem) {
            proof {
                assert(nv[i as int] == nodes@[i as int]@);
                lemma_find_node_at(nv, stem@, i as int);
            }
            return Some(nodes[i].id);
        }
        proof {
            assert(nv[i as int] == nodes@[i as int]@);
        }
        i = i + 1;
    }
    proof {
        lemma_find_node_none(nv, stem@);
    }
    None
}

/// Whether the stem list already holds this stem.
fn contains_stem(stems: &Vec<String>, s: &String) -> (r: bool)
    ensures
        r == spec_contains_stem(strings_view(stems@), s@),
{
    let ghost sv = strings_view(stems@);
    let mut i: usize = 0;
    while i < stems.len()
        invariant
            i <= stems@.len(),
            sv == strings_view(stems@),
            forall|k: int| 0 <= k < i ==> sv[k] != s@,
        decreases stems@.len() - i,
    {
        if string_eq(&stems[i], s) {
            proof {
                assert(sv[i as int] == stems@[i as int]@);
            }
            return true;
        }
        proof {
            assert(sv[i as int] == stems@[i as int]@);
        }
        i = i + 1;
    }
    false
}

/// The first fresh id: one above every stored id.
fn compute_base_id(entries: &Vec<Metadata>) -> (r: u32)
    requires
        forall|i: int|
            0 <= i < entries_view(entries@).len() ==> match #[trigger] entries_view(
                entries@,
            )[i].node_id {
                Some(v) => v < 0xF000_0000u32,
                None => true,
            },
    ensures
        r == spec_base_id(entries_view(entries@)),
{
    let ghost ev = entries_view(entries@);
    let mut base: u32 = 0;
    let mut i: usize = 0;
    while i < entries.len()
        invariant
            i <= entries@.len(),
            ev == entries_view(entries@),
            forall|k: int|
                0 <= k < ev.len() ==> match #[trigger] ev[k].node_id {
                    Some(v) => v < 0xF000_0000u32,
                    None => true,
                },
            base == spec_base_id(ev.subrange(0, i as int)),
        decreases entries@.len() - i,
    {
        proof {
            assert(ev[i as int] == entries@[i as int]@);
        }
        match entries[i].node_id {
            Some(v) => {
                proof {
                    assert(ev[i as int] == entries@[i as int]@);
                    assert(ev[i as int].node_id == Some(v));
                    assert(v < 0xF000_0000u32);
                }
                if v + 1 > base {
                    base = v + 1;
                }
            },
            None => {},
        }
        proof {
            assert(ev.subrange(0, i + 1 as int).drop_last() =~= ev.subrange(0, i as int));
            assert(ev.subrange(0, i + 1 as int).last() == ev[i as int]);
        }
        i = i + 1;
    }
    proof {
        assert(ev.subrange(0, ev.len() as int) =~= ev);
    }
    base
}

/// The string facts recorded on a node, in the fixed order.
fn build_meta_pairs(m: &Metadata) -> (r: Vec<(String, String)>)
    ensures
        string_pairs_view(r@) == spec_meta_pairs(m@),
{
    let mut v: Vec<(String, String)> = Vec::new();
    let name = strip_one_md_suffix(m.file_name.as_str());
    v.push(("fileName".to_owned(), m.file_name.clone()));
    v.push(("name".to_owned(), name.clone()));
    v.push(("metadataId".to_owned(), name));
    v.push(("fileSize".to_owned(), u64_to_string(m.file_size)));
    v.push(("nodeSize".to_owned(), m.node_size.clone()));
    v.push(("hyperlinkCount".to_owned(), u64_to_string(m.hyperlink_count)));
    v.push(("sha1".to_owned(), m.sha1.clone()));
    v.push(("lastModified".to_owned(), m.last_modified.clone()));
    if !m.perplexity_link.as_str().is_empty() {
        v.push(("perplexityLink".to_owned(), m.perplexity_link.clone()));
    }
    match &m.last_perplexity_process {
        Some(p) => {
            v.push(("lastPerplexityProcess".to_owned(), p.clone()));
        },
        None => {},
    }
    proof {
        assert(string_pairs_view(v@) =~= spec_meta_pairs(m@));
    }
    v
}

/// Adds a count to the edge of an unordered pair, appending a fresh edge
/// when the pair is new.
fn acc_edge(edges: &mut Vec<Edge>, a: u32, b: u32, w: u64)
    requires
        spec_edges_total(old(edges)@) + w <= 0xFFFF_FFFF_FFFF_FFFFu64,
    ensures
        final(edges)@ == spec_acc_edge(old(edges)@, a, b, w),
{
    let lo: u32;
    let hi: u32;
    if a < b {
        lo = a;
        hi = b;
    } else {
        lo = b;
        hi = a;
    }
    proof {
        assert((lo, hi) == spec_edge_key(a, b));
    }
    let mut i: usize = 0;
    while i < edges.len()
        invariant
            i <= edges@.len(),
            edges@ == old(edges)@,
            lo == spec_edge_key(a, b).0,
            hi == spec_edge_key(a, b).1,
            spec_edges_total(edges@) + w <= 0xFFFF_FFFF_FFFF_FFFFu64,
            forall|j: int|
                0 <= j < i ==> ((#[trigger] edges@[j]).source != spec_edge_key(a, b).0 || edges@[j].target != spec_edge_key(a, b).1),
        decreases edges@.len() - i,
    {
        if edges[i].source == lo && edges[i].target == hi {
            proof {
                lemma_weight_le_total(edges@);
                lemma_edges_total_nonneg(edges@);
            }
            let cur = edges[i].weight;
            edges.set(i, Edge { source: lo, target: hi, weight: cur + w });
            proof {
                lemma_acc_edge_update(old(edges)@, a, b, w, i as int);
            }
            return ;
        }
        i = i + 1;
    }
    edges.push(Edge { source: lo, target: hi, weight: w });
    proof {
        lemma_acc_edge_append(old(edges)@, a, b, w);
    }
}

/// Builds the graph of a metadata store. A pure function of the store's
/// view: the same entries always yield the same nodes, edges and id map.
pub fn build_graph_data(store: &MetadataStore) -> (r: GraphData)
    requires
        store_wf(store@),
        store@.len() <= MAX_STORE_ENTRIES,
        spec_counts_total(store@, store@.len() as int) <= 0xFFFF_FFFF_FFFF_FFFFu64,
    ensures
        r@ == spec_build_graph(store@),
        graph_wf(r@),
{
    let ghost ev = store@;
    let mut stems: Vec<String> = Vec::new();
    let mut i: usize = 0;
    while i < store.entries.len()
        invariant
            i <= store.entries@.len(),
            ev == store@,
            strings_view(stems@) == spec_stems(ev.subrange(0, i as int)),
        decreases store.entries@.len() - i,
    {
        proof {
            assert(ev[i as int] == store.entries@[i as int]@);
        }
        let st = strip_md_suffix(store.entries[i].file_name.as_str());
        let ghost stv = st@;
        let dup = contains_stem(&stems, &st);
        let ghost prev = strings_view(stems@);
        if !dup {
            stems.push(st);
            proof {
                assert(strings_view(stems@) =~= prev.push(stv));
            }
        }
        proof {
            assert(ev.subrange(0, i + 1 as int).drop_last() =~= ev.subrange(0, i as int));
            assert(ev.subrange(0, i + 1 as int).last() == ev[i as int]);
            assert(strings_view(stems@) == spec_stems(ev.subrange(0, i + 1 as int)));
        }
        i = i + 1;
    }
    proof {
        assert(ev.subrange(0, ev.len() as int) =~= ev);
    }
    let ghost stems_spec = spec_stems(ev);
    let base = compute_base_id(&store.entries);
    proof {
        lemma_base_id_bound(ev);
        lemma_stems_len(ev);
    }
    let mut nodes: Vec<Node> = Vec::new();
    let mut id_map: Vec<(u32, String)> = Vec::new();
    let mut k: usize = 0;
    while k < stems.len()
        invariant
            k <= stems@.len(),
            ev == store@,
            store_wf(ev),
            strings_view(stems@) == stems_spec,
            stems_spec == spec_stems(ev),
            stems_spec.len() <= ev.len(),
            ev.len() <= MAX_STORE_ENTRIES,
            base == spec_base_id(ev),
            base <= 0xF000_0000u32,
            nodes@.len() == k,
            id_map@.len() == k,
            forall|m: int|
                0 <= m < k ==> nodes_view(nodes@)[m] == spec_node_at(ev, stems_spec, m),
            forall|m: int|
                0 <= m < k ==> id_pairs_view(id_map@)[m] == (
                    spec_node_at(ev, stems_spec, m).id,
                    stems_spec[m],
                ),
        decreases stems@.len() - k,
    {
        proof {
            assert(strings_view(stems@)[k as int] == stems@[k as int]@);
        }
        let lookup = stems[k].clone().concat(".md");
        proof {
            reveal_strlit(".md");
            assert(".md"@ =~= spec_md_suffix());
            assert(lookup@ == stems_spec[k as int] + spec_md_suffix());
        }
        let eidx = find_entry_index(&store.entries, &lookup);
        let id: u32 = match eidx {
            Some(ei) => {
                proof {
                    assert(ev[ei as int] == store.entries@[ei as int]@);
                }
                match store.entries[ei].node_id {
                    Some(v) => v,
                    None => base + (k as u32),
                }
            },
            None => base + (k as u32),
        };
        proof {
            assert(id == spec_node_id_at(ev, stems_spec, k as int));
        }
        let node: Node = match eidx {
            Some(ei) => {
                let e = &store.entries[ei];
                Node {
                    id,
                    metadata_id: stems[k].clone(),
                    label: strip_md_suffix(e.file_name.as_str()),
                    size: Some(e.node_size.clone()),
                    file_size: e.file_size,
                    metadata: build_meta_pairs(e),
                    data: BinaryNodeData {
                        position: Vec3Data::zero(),
                        velocity: Vec3Data::zero(),
                        mass: mass_from_file_size(e.file_size),
                        flags: 1,
                        padding: [0, 0],
                    },
                }
            },
            None => Node {
                id,
                metadata_id: stems[k].clone(),
                label: stems[k].clone(),
                size: None,
                file_size: 0,
                metadata: Vec::new(),
                data: BinaryNodeData {
                    position: Vec3Data::zero(),
                    velocity: Vec3Data::zero(),
                    mass: mass_from_file_size(0),
                    flags: 1,
                    padding: [0, 0],
                },
            },
        };
        proof {
            assert(node.data.padding =~= [0u8, 0u8]);
            if eidx is None {
                assert(string_pairs_view(node.metadata@) =~= Seq::<(Seq<char>, Seq<char>)>::empty());
            }
            assert(node@ =~= spec_node_at(ev, stems_spec, k as int));
        }
        let ghost nodes0 = nodes@;
        let ghost map0 = id_map@;
        id_map.push((id, stems[k].clone()));
        nodes.push(node);
        proof {
            assert(nodes_view(nodes@)[k as int] == nodes@[k as int]@);
            assert(id_pairs_view(id_map@)[k as int] == (id, stems_spec[k as int]));
            assert forall|m: int|
                0 <= m < k + 1 implies nodes_view(nodes@)[m] == spec_node_at(
                ev,
                stems_spec,
                m,
            ) by {
                assert(nodes_view(nodes@)[m] == nodes@[m]@);
                if m < k {
                    assert(nodes@[m] == nodes0[m]);
                    assert(nodes_view(nodes0)[m] == nodes0[m]@);
                }
            }
            assert forall|m: int|
                0 <= m < k + 1 implies id_pairs_view(id_map@)[m] == (
                spec_node_at(ev, stems_spec, m).id,
                stems_spec[m],
            ) by {
                assert(id_pairs_view(id_map@)[m] == (id_map@[m].0, id_map@[m].1@));
                if m < k {
                    assert(id_map@[m] == map0[m]);
                    assert(id_pairs_view(map0)[m] == (map0[m].0, map0[m].1@));
                } else {
                    assert(id_map@[m].0 == id);
                    assert(id_map@[m].1@ == stems_spec[m]);
                    assert(spec_node_at(ev, stems_spec, m).id == id);
                }
            }
        }
        k = k + 1;
    }
    let ghost nv = nodes_view(nodes@);
    proof {
        assert(nv =~= spec_nodes(ev));
    }
    let mut edges: Vec<Edge> = Vec::new();
    let mut ei: usize = 0;
    while ei < store.entries.len()
        invariant
            ei <= store.entries@.len(),
            ev == store@,
            spec_counts_total(ev, ev.len() as int) <= 0xFFFF_FFFF_FFFF_FFFFu64,
            nv == nodes_view(nodes@),
            edges@ == spec_entries_edges_prefix(nv, ev, ei as int),
            spec_edges_total(edges@) <= spec_counts_total(ev, ei as int),
        decreases store.entries@.len() - ei,
    {
        proof {
            assert(ev[ei as int] == store.entries@[ei as int]@);
        }
        let e = &store.entries[ei];
        let sstem = strip_md_suffix(e.file_name.as_str());
        let sid_opt = find_node_id(&nodes, &sstem);
        let ghost acc0 = edges@;
        match sid_opt {
            Some(sid) => {
                let ghost topics_spec = ev[ei as int].topic_counts;
                let mut j: usize = 0;
                proof {
                    lemma_counts_total_mono(ev, ei + 1 as int, ev.len() as int);
                    lemma_topics_total_mono(topics_spec, 0, topics_spec.len() as int);
                }
                while j < e.topic_counts.len()
                    invariant
                        j <= e.topic_counts@.len(),
                        topics_spec == topics_view(e.topic_counts@),
                        topics_spec.len() == e.topic_counts@.len(),
                        nv == nodes_view(nodes@),
                        sid_opt == spec_find_node_id(nv, spec_strip_md(ev[ei as int].file_name)),
                        sid_opt == Some(sid),
                        0 <= ei < ev.len(),
                        topics_spec == ev[ei as int].topic_counts,
                        spec_counts_total(ev, ev.len() as int) <= 0xFFFF_FFFF_FFFF_FFFFu64,
                        spec_counts_total(ev, ei + 1 as int) == spec_counts_total(ev, ei as int)
                            + spec_topics_total(topics_spec, topics_spec.len() as int),
                        spec_counts_total(ev, ei + 1 as int) <= spec_counts_total(
                            ev,
                            ev.len() as int,
                        ),
                        edges@ == spec_topics_prefix(acc0, nv, sid, topics_spec, j as int),
                        spec_edges_total(edges@) <= spec_counts_total(ev, ei as int)
                            + spec_topics_total(topics_spec, j as int),
                    decreases e.topic_counts@.len() - j,
                {
                    proof {
                        assert(topics_spec[j as int] == (
                            e.topic_counts@[j as int].0@,
                            e.topic_counts@[j as int].1,
                        ));
                    }
                    let count = e.topic_counts[j].1;
                    let tstem = strip_md_suffix(e.topic_counts[j].0.as_str());
                    let tid_opt = find_node_id(&nodes, &tstem);
                    let ghost pre = edges@;
                    match tid_opt {
                        Some(tid) => {
                            if tid != sid && count > 0 {
                                proof {
                                    lemma_topics_total_mono(
                                        topics_spec,
                                        j + 1 as int,
                                        topics_spec.len() as int,
                                    );
                                    lemma_edges_total_nonneg(edges@);
                                }
                                acc_edge(&mut edges, sid, tid, count);
                                proof {
                                    lemma_acc_edge_total(pre, sid, tid, count);
                                }
                            }
                        },
                        None => {},
                    }
                    proof {
                        lemma_topics_total_mono(topics_spec, j + 1 as int, topics_spec.len() as int);
                        assert(edges@ == spec_topic_step(pre, nv, sid, topics_spec[j as int]));
                        assert(edges@ == spec_topics_prefix(acc0, nv, sid, topics_spec, j + 1 as int));
                    }
                    j = j + 1;
                }
                proof {
                    assert(edges@ == spec_entries_edges_prefix(nv, ev, ei + 1 as int));
                }
            },
            None => {
                proof {
                    assert(edges@ == spec_entries_edges_prefix(nv, ev, ei + 1 as int));
                    lemma_counts_total_mono(ev, ei as int, ei + 1 as int);
                }
            },
        }
        ei = ei + 1;
    }
    proof {
        assert(edges@ == spec_edges(ev));
    }
    let metadata = clone_store(store);
    let g = GraphData { nodes, edges, metadata, id_to_metadata: id_map };
    proof {
        assert(g@.id_to_metadata =~= spec_build_graph(ev).id_to_metadata);
        assert(g@ =~= spec_build_graph(ev));
        lemma_build_graph_wf(ev);
    }
    g
}

/// Every edge of a built graph joins two distinct, existing nodes.
pub proof fn lemma_built_edges_valid(entries: Seq<MetadataView>)
    requires
        store_wf(entries),
        entries.len() <= MAX_STORE_ENTRIES,
        spec_counts_total(entries, entries.len() as int) <= 0xFFFF_FFFF_FFFF_FFFFu64,
    ensures
        forall|k: int|
            0 <= k < spec_build_graph(entries).edges.len() ==> {
                let e = #[trigger] spec_build_graph(entries).edges[k];
                &&& e.source != e.target
                &&& e.weight >= 1
                &&& spec_has_node_id(spec_build_graph(entries).nodes, e.source)
                &&& spec_has_node_id(spec_build_graph(entries).nodes, e.target)
            },
{
    lemma_build_graph_wf(entries);
}

/// No two edges of a built graph join the same unordered pair.
pub proof fn lemma_built_edges_unique(entries: Seq<MetadataView>)
    requires
        store_wf(entries),
        entries.len() <= MAX_STORE_ENTRIES,
        spec_counts_total(entries, entries.len() as int) <= 0xFFFF_FFFF_FFFF_FFFFu64,
    ensures
        forall|k: int, l: int|
            0 <= k < l < spec_build_graph(entries).edges.len() ==> {
                let a = #[trigger] spec_build_graph(entries).edges[k];
                let b = #[trigger] spec_build_graph(entries).edges[l];
                !((a.source == b.source && a.target == b.target) || (a.source == b.target
                    && a.target == b.source))
            },
{
    lemma_build_graph_wf(entries);
}

/// The id map of a built graph sends each node's id to its metadata id:
/// one pair per node, in node order.
pub proof fn lemma_built_id_map(entries: Seq<MetadataView>)
    requires
        store_wf(entries),
        entries.len() <= MAX_STORE_ENTRIES,
        spec_counts_total(entries, entries.len() as int) <= 0xFFFF_FFFF_FFFF_FFFFu64,
    ensures
        spec_build_graph(entries).id_to_metadata.len() == spec_build_graph(entries).nodes.len(),
        forall|i: int|
            0 <= i < spec_build_graph(entries).nodes.len()
                ==> #[trigger] spec_build_graph(entries).id_to_metadata[i] == (
                spec_build_graph(entries).nodes[i].id,
                spec_build_graph(entries).nodes[i].metadata_id,
            ),
{
    lemma_build_graph_wf(entries);
}

/// Graph construction is a pure function of the store: two stores with
/// the same entries yield the same nodes, edges and id map.
pub proof fn lemma_build_graph_pure(s1: Seq<MetadataView>, s2: Seq<MetadataView>)
    requires
        s1 == s2,
    ensures
        spec_build_graph(s1) == spec_build_graph(s2),
{
}

/// The empty store builds the empty graph: no nodes, no edges, no id
/// pairs.
pub proof fn lemma_empty_store_empty_graph()
    ensures
        spec_build_graph(Seq::<MetadataView>::empty()).nodes.len() == 0,
        spec_build_graph(Seq::<MetadataView>::empty()).edges.len() == 0,
        spec_build_graph(Seq::<MetadataView>::empty()).id_to_metadata.len() == 0,
{
}

} // verus!
