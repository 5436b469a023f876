use graphflow::builder::build_graph_data;
use graphflow::metadata::{Metadata, MetadataStore};
use graphflow::record::{BinaryNodeData, Vec3Data, NODE_RECORD_BYTES};
use graphflow::service::{positions_to_binary, GraphService, ServiceError};

fn entry(name: &str, size: u64, topics: &[(&str, u64)]) -> Metadata {
    Metadata {
        file_name: name.to_string(),
        file_size: size,
        node_size: "1.0".to_string(),
        hyperlink_count: 0,
        sha1: String::new(),
        node_id: None,
        last_modified: String::new(),
        perplexity_link: String::new(),
        last_perplexity_process: None,
        topic_counts: topics.iter().map(|(n, c)| (n.to_string(), *c)).collect(),
    }
}

fn service_with_files(names: &[&str]) -> GraphService {
    let mut store = MetadataStore::new();
    for n in names {
        store.insert(entry(n, 512, &[]));
    }
    let mut svc = GraphService::new(true);
    let g = build_graph_data(&store);
    svc.install_graph(g);
    svc
}

#[test]
fn test_rebuild_busy_on_second_attempt() {
    let mut svc = GraphService::new(true);
    assert!(svc.try_begin_rebuild().is_ok());
    assert_eq!(svc.try_begin_rebuild(), Err(ServiceError::Busy));
    let store = MetadataStore::new();
    assert!(matches!(
        svc.build_graph_from_metadata(&store),
        Err(ServiceError::Busy)
    ));
    svc.finish_rebuild();
    assert!(svc.build_graph_from_metadata(&store).is_ok());
    // The guard is clear again after a completed rebuild.
    assert!(!svc.rebuild_in_progress);
}

#[test]
fn test_empty_graph_service() {
    let mut svc = GraphService::new(true);
    let nodes = svc.get_node_positions(0);
    assert_eq!(nodes.len(), 0);
    let frame = svc.apply_layout_result(0, None);
    assert_eq!(frame.len(), 0);
}

#[test]
fn test_position_cache_served_only_while_fresh() {
    let mut svc = service_with_files(&["a.md", "b.md"]);
    let first = svc.get_node_positions(1000);
    assert_eq!(first.len(), 2);
    // Overwrite the live graph; the cache still holds the old snapshot.
    let moved = BinaryNodeData {
        position: Vec3Data { x: 42, y: 0, z: 0 },
        velocity: Vec3Data { x: 0, y: 0, z: 0 },
        mass: 1,
        flags: 1,
        padding: [0, 0],
    };
    svc.graph.nodes[0].data = moved;
    // Age 49 ms: still fresh, the cached positions come back.
    let cached = svc.get_node_positions(1049);
    assert_eq!(cached[0].data, first[0].data);
    // Age 50 ms: stale, the overwritten graph is read and re-cached.
    let fresh = svc.get_node_positions(1050);
    assert_eq!(fresh[0].data, moved);
}

#[test]
fn test_clear_position_cache_forces_refresh() {
    let mut svc = service_with_files(&["a.md"]);
    let _ = svc.get_node_positions(0);
    let moved = BinaryNodeData {
        position: Vec3Data { x: 7, y: 7, z: 7 },
        velocity: Vec3Data { x: 0, y: 0, z: 0 },
        mass: 1,
        flags: 1,
        padding: [0, 0],
    };
    svc.graph.nodes[0].data = moved;
    svc.clear_position_cache();
    let fresh = svc.get_node_positions(1);
    assert_eq!(fresh[0].data, moved);
}

#[test]
fn test_pagination_window_and_page_count() {
    let svc = service_with_files(&["a.md", "b.md", "c.md", "d.md", "e.md"]);
    let p = svc.get_paginated_graph_data(1, 2).unwrap();
    assert_eq!(p.total_nodes, 5);
    assert_eq!(p.total_pages, 3);
    assert_eq!(p.current_page, 1);
    assert_eq!(p.nodes.len(), 2);
    assert_eq!(p.nodes[0].metadata_id, svc.graph.nodes[2].metadata_id);
    let last = svc.get_paginated_graph_data(2, 2).unwrap();
    assert_eq!(last.nodes.len(), 1);
    let beyond = svc.get_paginated_graph_data(9, 2).unwrap();
    assert_eq!(beyond.nodes.len(), 0);
}

#[test]
fn test_pagination_incident_edges() {
    let mut store = MetadataStore::new();
    store.insert(entry("a.md", 512, &[("b.md", 1)]));
    store.insert(entry("b.md", 512, &[("c.md", 2)]));
    store.insert(entry("c.md", 512, &[]));
    let mut svc = GraphService::new(true);
    let g = build_graph_data(&store);
    svc.install_graph(g);
    // Window holding only node "a": only the a-b edge touches it.
    let p = svc.get_paginated_graph_data(0, 1).unwrap();
    assert_eq!(p.nodes.len(), 1);
    assert_eq!(p.nodes[0].metadata_id, "a");
    assert_eq!(p.edges.len(), 1);
    // The middle node touches both edges.
    let p = svc.get_paginated_graph_data(1, 1).unwrap();
    assert_eq!(p.edges.len(), 2);
}

#[test]
fn test_update_node_positions_by_id() {
    let mut svc = service_with_files(&["a.md", "b.md"]);
    let target_id = svc.graph.nodes[1].id;
    assert!(target_id <= u16::MAX as u32);
    let new_data = BinaryNodeData {
        position: Vec3Data { x: 5, y: 6, z: 7 },
        velocity: Vec3Data { x: 1, y: 2, z: 3 },
        mass: 8,
        flags: 1,
        padding: [0, 0],
    };
    let mut carrier = svc.graph.nodes[1].clone();
    carrier.data = new_data;
    let before = svc.graph.nodes[0].data;
    svc.update_node_positions(vec![(target_id as u16, carrier)])
        .unwrap();
    assert_eq!(svc.graph.nodes[1].data, new_data);
    assert_eq!(svc.graph.nodes[0].data, before);
}

#[test]
fn test_apply_step_results_preserves_order() {
    let mut svc = service_with_files(&["a.md", "b.md", "c.md"]);
    let mk = |v: u32| BinaryNodeData {
        position: Vec3Data { x: v, y: v, z: v },
        velocity: Vec3Data { x: 0, y: 0, z: 0 },
        mass: 1,
        flags: 1,
        padding: [0, 0],
    };
    let updated = vec![mk(1), mk(2)];
    let count = svc.apply_step_results(&updated);
    assert_eq!(count, 2);
    assert_eq!(svc.graph.nodes[0].data, mk(1));
    assert_eq!(svc.graph.nodes[1].data, mk(2));
    // The third node, beyond the executor output, keeps its state.
    assert_eq!(svc.graph.nodes[2].data.position.x, 0);
    // Identities never move.
    assert_eq!(svc.graph.nodes[0].metadata_id, "a");
}

#[test]
fn test_layout_zero_iterations_serves_current_positions() {
    let mut svc = service_with_files(&["a.md", "b.md"]);
    let before = positions_to_binary(&svc.graph.nodes);
    let frame1 = svc.apply_layout_result(0, None);
    let frame2 = svc.apply_layout_result(0, None);
    assert_eq!(frame1, before);
    assert_eq!(frame2, before);
    assert_eq!(frame1.len(), 2 * NODE_RECORD_BYTES);
}

#[test]
fn test_layout_with_steps_installs_and_packs() {
    let mut svc = service_with_files(&["a.md"]);
    let stepped = BinaryNodeData {
        position: Vec3Data { x: 11, y: 12, z: 13 },
        velocity: Vec3Data { x: 0, y: 0, z: 0 },
        mass: 3,
        flags: 1,
        padding: [0, 0],
    };
    let frame = svc.apply_layout_result(2, Some(vec![stepped]));
    assert_eq!(svc.graph.nodes[0].data, stepped);
    assert_eq!(frame, positions_to_binary(&svc.graph.nodes));
}

#[test]
fn test_positions_to_binary_length() {
    let svc = service_with_files(&["a.md", "b.md", "c.md"]);
    let frame = positions_to_binary(&svc.graph.nodes);
    assert_eq!(frame.len(), 3 * NODE_RECORD_BYTES);
    assert_eq!(frame.len() % NODE_RECORD_BYTES, 0);
}
