use graphflow::builder::build_graph_data;
use graphflow::graph::mass_from_file_size;
use graphflow::metadata::{Metadata, MetadataStore};

fn entry(name: &str, size: u64, topics: &[(&str, u64)], node_id: Option<u32>) -> Metadata {
    Metadata {
        file_name: name.to_string(),
        file_size: size,
        node_size: "1.5".to_string(),
        hyperlink_count: topics.iter().map(|t| t.1).sum(),
        sha1: "da39a3ee".to_string(),
        node_id,
        last_modified: "2024-01-01T00:00:00Z".to_string(),
        perplexity_link: String::new(),
        last_perplexity_process: None,
        topic_counts: topics.iter().map(|(n, c)| (n.to_string(), *c)).collect(),
    }
}

fn store(entries: Vec<Metadata>) -> MetadataStore {
    let mut s = MetadataStore::new();
    for e in entries {
        s.insert(e);
    }
    s
}

#[test]
fn test_empty_metadata_empty_graph() {
    let g = build_graph_data(&MetadataStore::new());
    assert_eq!(g.nodes.len(), 0);
    assert_eq!(g.edges.len(), 0);
    assert_eq!(g.id_to_metadata.len(), 0);
}

#[test]
fn test_two_files_one_weighted_edge() {
    let s = store(vec![
        entry("a.md", 2048, &[("b.md", 2)], None),
        entry("b.md", 1024, &[], None),
    ]);
    let g = build_graph_data(&s);
    assert_eq!(g.nodes.len(), 2);
    assert_ne!(g.nodes[0].id, g.nodes[1].id);
    assert_eq!(g.edges.len(), 1);
    assert_eq!(g.edges[0].weight, 2);
    // Larger file, larger mass.
    assert!(g.nodes[0].data.mass > g.nodes[1].data.mass);
    assert_eq!(g.nodes[0].metadata_id, "a");
    assert_eq!(g.nodes[1].metadata_id, "b");
}

#[test]
fn test_self_link_makes_no_edge() {
    let s = store(vec![entry("a.md", 100, &[("a.md", 3)], None)]);
    let g = build_graph_data(&s);
    assert_eq!(g.nodes.len(), 1);
    assert_eq!(g.edges.len(), 0);
}

#[test]
fn test_bidirectional_weights_accumulate() {
    let s = store(vec![
        entry("a.md", 100, &[("b.md", 2)], None),
        entry("b.md", 100, &[("a.md", 3)], None),
    ]);
    let g = build_graph_data(&s);
    assert_eq!(g.nodes.len(), 2);
    assert_eq!(g.edges.len(), 1);
    assert_eq!(g.edges[0].weight, 5);
}

#[test]
fn test_missing_endpoint_skipped() {
    let s = store(vec![entry("a.md", 100, &[("ghost.md", 4)], None)]);
    let g = build_graph_data(&s);
    assert_eq!(g.nodes.len(), 1);
    assert_eq!(g.edges.len(), 0);
}

#[test]
fn test_zero_count_contributes_nothing() {
    let s = store(vec![
        entry("a.md", 100, &[("b.md", 0)], None),
        entry("b.md", 100, &[], None),
    ]);
    let g = build_graph_data(&s);
    assert_eq!(g.edges.len(), 0);
}

#[test]
fn test_build_is_deterministic() {
    let mk = || {
        store(vec![
            entry("a.md", 2048, &[("b.md", 2), ("c.md", 1)], None),
            entry("b.md", 1024, &[("a.md", 1)], None),
            entry("c.md", 512, &[], Some(40)),
        ])
    };
    let g1 = build_graph_data(&mk());
    let g2 = build_graph_data(&mk());
    assert_eq!(g1.nodes.len(), g2.nodes.len());
    for (n1, n2) in g1.nodes.iter().zip(g2.nodes.iter()) {
        assert_eq!(n1.id, n2.id);
        assert_eq!(n1.metadata_id, n2.metadata_id);
        assert_eq!(n1.label, n2.label);
        assert_eq!(n1.data, n2.data);
    }
    assert_eq!(g1.edges, g2.edges);
}

#[test]
fn test_stored_ids_are_reused_and_fresh_ids_avoid_them() {
    let s = store(vec![
        entry("a.md", 100, &[], Some(7)),
        entry("b.md", 100, &[], None),
        entry("c.md", 100, &[], Some(3)),
    ]);
    let g = build_graph_data(&s);
    assert_eq!(g.nodes[0].id, 7);
    assert_eq!(g.nodes[2].id, 3);
    // The fresh id lies above every stored one.
    assert!(g.nodes[1].id > 7);
    let mut ids: Vec<u32> = g.nodes.iter().map(|n| n.id).collect();
    ids.sort();
    ids.dedup();
    assert_eq!(ids.len(), 3);
}

#[test]
fn test_edge_endpoints_exist_and_pairs_unique() {
    let s = store(vec![
        entry("a.md", 100, &[("b.md", 1), ("c.md", 2)], None),
        entry("b.md", 100, &[("c.md", 1), ("a.md", 2)], None),
        entry("c.md", 100, &[], None),
    ]);
    let g = build_graph_data(&s);
    let ids: Vec<u32> = g.nodes.iter().map(|n| n.id).collect();
    for e in &g.edges {
        assert_ne!(e.source, e.target);
        assert!(ids.contains(&e.source));
        assert!(ids.contains(&e.target));
        assert!(e.weight >= 1);
    }
    for i in 0..g.edges.len() {
        for j in (i + 1)..g.edges.len() {
            let a = &g.edges[i];
            let b = &g.edges[j];
            let same = (a.source == b.source && a.target == b.target)
                || (a.source == b.target && a.target == b.source);
            assert!(!same);
        }
    }
}

#[test]
fn test_id_map_matches_nodes() {
    let s = store(vec![
        entry("a.md", 100, &[], Some(5)),
        entry("b.md", 100, &[], None),
    ]);
    let g = build_graph_data(&s);
    assert_eq!(g.id_to_metadata.len(), g.nodes.len());
    for (i, n) in g.nodes.iter().enumerate() {
        assert_eq!(g.id_to_metadata[i].0, n.id);
        assert_eq!(g.id_to_metadata[i].1, n.metadata_id);
    }
}

#[test]
fn test_node_metadata_map_fields() {
    let s = store(vec![entry("a.md", 2048, &[("b.md", 3)], None)]);
    let g = build_graph_data(&s);
    let n = &g.nodes[0];
    let get = |key: &str| -> Option<&str> {
        n.metadata
            .iter()
            .find(|p| p.0 == key)
            .map(|p| p.1.as_str())
    };
    assert_eq!(get("fileName"), Some("a.md"));
    assert_eq!(get("name"), Some("a"));
    assert_eq!(get("metadataId"), Some("a"));
    assert_eq!(get("fileSize"), Some("2048"));
    assert_eq!(get("nodeSize"), Some("1.5"));
    assert_eq!(get("hyperlinkCount"), Some("3"));
    assert_eq!(get("sha1"), Some("da39a3ee"));
    assert_eq!(get("lastModified"), Some("2024-01-01T00:00:00Z"));
    assert_eq!(get("perplexityLink"), None);
    assert_eq!(n.data.flags, 1);
    assert_eq!(n.label, "a");
    assert_eq!(n.size.as_deref(), Some("1.5"));
    assert_eq!(f32::from_bits(n.data.position.x), 0.0);
    assert_eq!(f32::from_bits(n.data.velocity.z), 0.0);
}

#[test]
fn test_mass_from_file_size() {
    assert_eq!(mass_from_file_size(0), 1);
    assert_eq!(mass_from_file_size(255), 1);
    assert_eq!(mass_from_file_size(256), 2);
    assert_eq!(mass_from_file_size(1024), 5);
    assert_eq!(mass_from_file_size(2048), 9);
    assert_eq!(mass_from_file_size(u64::MAX), 255);
    assert!(mass_from_file_size(1024) < mass_from_file_size(2048));
}

#[test]
fn test_store_insert_replaces_by_name() {
    let mut s = MetadataStore::new();
    s.insert(entry("a.md", 100, &[], None));
    s.insert(entry("b.md", 100, &[], None));
    s.insert(entry("a.md", 999, &[], None));
    assert_eq!(s.len(), 2);
    assert_eq!(s.entries[0].file_size, 999);
}
