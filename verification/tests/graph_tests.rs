use board_editor::block::VertexData;
use board_editor::coords::BoardCoords;
use board_editor::graph::{Graph, GraphError};
use board_editor::ids::IdGen;
use board_editor::vertex_entry::{VertexEntry, VerticesIter};

fn data_at(x: i64, y: i64) -> VertexData {
    VertexData::from(BoardCoords::from_units(x, y))
}

fn check_integrity(g: &Graph) {
    let ids = g.vertex_ids();
    for id in ids.iter() {
        let inc = g.incoming_of(*id).expect("listed id must be live");
        let out = g.outgoing_of(*id).expect("listed id must be live");
        for o in inc.iter() {
            assert!(ids.contains(o), "incoming entry must be a live vertex");
            let their_out = g.outgoing_of(*o).expect("neighbor must be live");
            assert!(their_out.contains(id), "adjacency must be symmetric");
        }
        for o in out.iter() {
            assert!(ids.contains(o), "outgoing entry must be a live vertex");
            let their_inc = g.incoming_of(*o).expect("neighbor must be live");
            assert!(their_inc.contains(id), "adjacency must be symmetric");
        }
    }
}

#[test]
fn new_vertex_issues_increasing_ids() {
    let mut g = Graph::new();
    let a = g.new_vertex(data_at(0, 0)).unwrap();
    let b = g.new_vertex(data_at(1, 0)).unwrap();
    let c = g.new_vertex(data_at(2, 0)).unwrap();
    assert_eq!(a, 1);
    assert_eq!(b, 2);
    assert_eq!(c, 3);
    assert_eq!(g.vertex_ids(), vec![1, 2, 3]);
}

#[test]
fn ids_are_not_reused_after_removal() {
    let mut g = Graph::new();
    let a = g.new_vertex(data_at(0, 0)).unwrap();
    g.remove_vertex(a);
    let b = g.new_vertex(data_at(0, 0)).unwrap();
    assert_ne!(a, b);
    assert_eq!(b, 2);
}

#[test]
fn add_edge_updates_both_directions() {
    let mut g = Graph::new();
    let a = g.new_vertex(data_at(0, 0)).unwrap();
    let b = g.new_vertex(data_at(1, 0)).unwrap();
    assert_eq!(g.add_edge(a, b), Ok(()));
    assert!(g.has_edge(a, b));
    assert!(!g.has_edge(b, a));
    assert_eq!(g.outgoing_of(a).unwrap(), vec![b]);
    assert_eq!(g.incoming_of(b).unwrap(), vec![a]);
    assert_eq!(g.incoming_of(a).unwrap(), Vec::<i64>::new());
    check_integrity(&g);
}

#[test]
fn add_edge_missing_endpoint_is_not_found() {
    let mut g = Graph::new();
    let a = g.new_vertex(data_at(0, 0)).unwrap();
    assert_eq!(g.add_edge(a, 77), Err(GraphError::NotFound));
    assert_eq!(g.add_edge(77, a), Err(GraphError::NotFound));
    assert_eq!(g.add_edge(77, 78), Err(GraphError::NotFound));
    assert_eq!(g.edges(), Vec::<(i64, i64)>::new());
}

#[test]
fn add_edge_twice_is_idempotent() {
    let mut g = Graph::new();
    let a = g.new_vertex(data_at(0, 0)).unwrap();
    let b = g.new_vertex(data_at(1, 0)).unwrap();
    assert_eq!(g.add_edge(a, b), Ok(()));
    let once = g.edges();
    let inc_once = g.incoming_of(b).unwrap();
    let out_once = g.outgoing_of(a).unwrap();
    assert_eq!(g.add_edge(a, b), Ok(()));
    assert_eq!(g.edges(), once);
    assert_eq!(g.incoming_of(b).unwrap(), inc_once);
    assert_eq!(g.outgoing_of(a).unwrap(), out_once);
    check_integrity(&g);
}

#[test]
fn self_loop_is_allowed_and_symmetric() {
    let mut g = Graph::new();
    let a = g.new_vertex(data_at(0, 0)).unwrap();
    assert_eq!(g.add_edge(a, a), Ok(()));
    assert!(g.has_edge(a, a));
    assert_eq!(g.incoming_of(a).unwrap(), vec![a]);
    assert_eq!(g.outgoing_of(a).unwrap(), vec![a]);
    check_integrity(&g);
}

#[test]
fn remove_vertex_cascades_both_directions() {
    let mut g = Graph::new();
    let a = g.new_vertex(data_at(0, 0)).unwrap();
    let b = g.new_vertex(data_at(1, 0)).unwrap();
    let c = g.new_vertex(data_at(2, 0)).unwrap();
    assert_eq!(g.add_edge(a, b), Ok(()));
    assert_eq!(g.add_edge(b, c), Ok(()));
    assert_eq!(g.add_edge(c, b), Ok(()));
    g.remove_vertex(b);
    assert_eq!(g.vertex_ids(), vec![a, c]);
    for id in [a, c] {
        let inc = g.incoming_of(id).unwrap();
        let out = g.outgoing_of(id).unwrap();
        assert!(!inc.contains(&b), "no incoming reference to removed id");
        assert!(!out.contains(&b), "no outgoing reference to removed id");
    }
    assert_eq!(g.edges(), Vec::<(i64, i64)>::new());
    check_integrity(&g);
}

#[test]
fn remove_absent_vertex_is_a_no_op() {
    let mut g = Graph::new();
    let a = g.new_vertex(data_at(0, 0)).unwrap();
    g.remove_vertex(99);
    assert_eq!(g.vertex_ids(), vec![a]);
}

#[test]
fn integrity_holds_through_a_mixed_sequence() {
    let mut g = Graph::new();
    let a = g.new_vertex(data_at(0, 0)).unwrap();
    let b = g.new_vertex(data_at(1, 0)).unwrap();
    check_integrity(&g);
    assert_eq!(g.add_edge(a, b), Ok(()));
    check_integrity(&g);
    let c = g.new_vertex(data_at(2, 0)).unwrap();
    assert_eq!(g.add_edge(c, a), Ok(()));
    assert_eq!(g.add_edge(b, c), Ok(()));
    check_integrity(&g);
    g.remove_vertex(a);
    check_integrity(&g);
    let d = g.new_vertex(data_at(3, 0)).unwrap();
    assert_eq!(g.add_edge(d, b), Ok(()));
    check_integrity(&g);
    g.remove_vertex(c);
    check_integrity(&g);
    assert_eq!(g.vertex_ids(), vec![b, d]);
}

#[test]
fn edges_come_out_in_lexicographic_order() {
    let mut g = Graph::new();
    let a = g.new_vertex(data_at(0, 0)).unwrap();
    let b = g.new_vertex(data_at(1, 0)).unwrap();
    let c = g.new_vertex(data_at(2, 0)).unwrap();
    assert_eq!(g.add_edge(c, a), Ok(()));
    assert_eq!(g.add_edge(a, c), Ok(()));
    assert_eq!(g.add_edge(a, b), Ok(()));
    assert_eq!(g.add_edge(b, a), Ok(()));
    assert_eq!(g.edges(), vec![(a, b), (a, c), (b, a), (c, a)]);
}

#[test]
fn selection_flags_and_clearing() {
    let mut g = Graph::new();
    let a = g.new_vertex(data_at(0, 0)).unwrap();
    let b = g.new_vertex(data_at(1, 0)).unwrap();
    assert!(!g.get(a).unwrap().selected);
    assert!(g.set_selected(a, true));
    assert!(g.set_selected(b, true));
    assert!(g.any_selected());
    assert_eq!(g.selected_ids(), vec![a, b]);
    g.clear_selection();
    assert!(!g.any_selected());
    for id in g.vertex_ids() {
        assert!(!g.get(id).unwrap().selected, "no vertex selected after clearing");
    }
}

#[test]
fn set_selected_on_absent_id_reports_false() {
    let mut g = Graph::new();
    assert!(!g.set_selected(5, true));
    assert!(!g.any_selected());
}

#[test]
fn remove_selected_deletes_connected_pair_entirely() {
    let mut g = Graph::new();
    let a = g.new_vertex(data_at(0, 0)).unwrap();
    let b = g.new_vertex(data_at(1, 0)).unwrap();
    assert_eq!(g.add_edge(a, b), Ok(()));
    assert_eq!(g.add_edge(b, a), Ok(()));
    g.set_selected(a, true);
    g.set_selected(b, true);
    g.remove_selected();
    assert_eq!(g.vertex_ids(), Vec::<i64>::new());
    assert_eq!(g.edges(), Vec::<(i64, i64)>::new());
}

#[test]
fn commit_edges_links_every_selected_source() {
    let mut g = Graph::new();
    let a = g.new_vertex(data_at(0, 0)).unwrap();
    let b = g.new_vertex(data_at(1, 0)).unwrap();
    let t = g.new_vertex(data_at(2, 0)).unwrap();
    g.set_selected(a, true);
    g.set_selected(b, true);
    g.commit_edges(t);
    assert_eq!(g.edges(), vec![(a, t), (b, t)]);
    check_integrity(&g);
}

#[test]
fn commit_edges_to_stale_target_changes_nothing() {
    let mut g = Graph::new();
    let a = g.new_vertex(data_at(0, 0)).unwrap();
    g.set_selected(a, true);
    g.commit_edges(42);
    assert_eq!(g.edges(), Vec::<(i64, i64)>::new());
    assert!(g.get(a).unwrap().selected);
}

#[test]
fn create_block_clears_old_selection_and_selects_new() {
    let mut g = Graph::new();
    let a = g.new_vertex(data_at(0, 0)).unwrap();
    g.set_selected(a, true);
    let b = g.create_block(BoardCoords::from_units(5, 5)).unwrap();
    assert!(!g.get(a).unwrap().selected);
    assert!(g.get(b).unwrap().selected);
    assert_eq!(g.get(b).unwrap().center, BoardCoords::from_units(5, 5));
}

#[test]
fn id_generator_counts_up_from_one() {
    let mut gen = IdGen::new();
    assert_eq!(gen.next(), Some(1));
    assert_eq!(gen.next(), Some(2));
    gen.observe(10);
    assert_eq!(gen.next(), Some(11));
    gen.observe(4);
    assert_eq!(gen.next(), Some(12));
}

#[test]
fn id_generator_stops_at_the_end_of_the_id_space() {
    let mut gen = IdGen { last: i64::MAX };
    assert_eq!(gen.next(), None);
    let mut g = Graph::new();
    g.id_gen.last = i64::MAX;
    assert_eq!(g.new_vertex(data_at(0, 0)), None);
    assert_eq!(g.create_block(BoardCoords::from_units(0, 0)), None);
    assert_eq!(g.vertex_ids(), Vec::<i64>::new());
}

#[test]
fn entry_distinguishes_live_and_free_ids() {
    let mut g = Graph::new();
    let a = g.new_vertex(data_at(3, 4)).unwrap();
    let occ = g.entry(a).expect("live id has an occupied entry");
    assert_eq!(occ.id(), a);
    assert_eq!(*occ.data(&g), VertexData::from(BoardCoords::from_units(3, 4)));
    assert!(g.entry(99).is_none());
    match VertexEntry::new(&g, a) {
        VertexEntry::Occupied(e) => assert_eq!(e.id(), a),
        VertexEntry::Vacant(_) => panic!("id is live"),
    }
    match VertexEntry::new(&g, 7) {
        VertexEntry::Occupied(_) => panic!("id is free"),
        VertexEntry::Vacant(e) => assert_eq!(e.id(), 7),
    }
}

#[test]
fn vacant_entry_occupy_inserts_at_the_chosen_id() {
    let mut g = Graph::new();
    let entry = VertexEntry::new(&g, 5);
    let occ = entry.occupy(&mut g, data_at(1, 1)).expect("free id can be occupied");
    assert_eq!(occ.id(), 5);
    assert_eq!(g.vertex_ids(), vec![5]);
    let next = g.new_vertex(data_at(2, 2)).unwrap();
    assert_eq!(next, 6, "watermark moves past an occupied id");
    let taken = VertexEntry::new(&g, 5);
    assert!(taken.occupy(&mut g, data_at(9, 9)).is_none());
    assert_eq!(g.get(5).unwrap().center, BoardCoords::from_units(1, 1));
}

#[test]
fn or_insert_keeps_an_existing_vertex() {
    let mut g = Graph::new();
    let a = g.new_vertex(data_at(1, 1)).unwrap();
    let kept = VertexEntry::new(&g, a).or_insert(&mut g, data_at(9, 9));
    assert_eq!(kept.id(), a);
    assert_eq!(g.get(a).unwrap().center, BoardCoords::from_units(1, 1));
    let fresh = VertexEntry::new(&g, 8).or_insert(&mut g, data_at(2, 2));
    assert_eq!(fresh.id(), 8);
    assert_eq!(g.get(8).unwrap().center, BoardCoords::from_units(2, 2));
}

#[test]
fn occupied_entry_adds_edges_in_both_directions() {
    let mut g = Graph::new();
    let a = g.new_vertex(data_at(0, 0)).unwrap();
    let b = g.new_vertex(data_at(1, 0)).unwrap();
    let ea = g.entry(a).unwrap();
    ea.add_outgoing(&mut g, b);
    assert!(g.has_edge(a, b));
    let eb = g.entry(b).unwrap();
    eb.add_incoming(&mut g, a);
    assert_eq!(g.edges(), vec![(a, b)]);
    check_integrity(&g);
}

#[test]
fn vertices_iter_walks_ids_in_order() {
    let mut g = Graph::new();
    let a = g.new_vertex(data_at(0, 0)).unwrap();
    let b = g.new_vertex(data_at(1, 0)).unwrap();
    let c = g.new_vertex(data_at(2, 0)).unwrap();
    let mut iter = g.iter_vertices();
    let mut seen = Vec::new();
    while let Some(entry) = iter.next() {
        seen.push(entry.id());
    }
    assert_eq!(seen, vec![a, b, c]);
    let mut fresh = VerticesIter::new(&g);
    assert_eq!(fresh.next().unwrap().id(), a);
}

#[test]
fn dumps_snapshot_every_block() {
    let mut g = Graph::new();
    let a = g.new_vertex(data_at(1, 2)).unwrap();
    g.set_selected(a, true);
    let dumps = g.dumps();
    assert_eq!(dumps.len(), 1);
    assert_eq!(dumps[0].id(), a);
    assert!(dumps[0].selected());
    assert_eq!(dumps[0].center(), BoardCoords::from_units(1, 2));
}
