use board_editor::coords::{AppCoords, BoardCoords};
use board_editor::editor::Editor;
use board_editor::event::{BlockEvent, Event, Key, SelectionModifier};
use board_editor::state::{Phase, StateStages};

fn units(x: i64, y: i64) -> BoardCoords {
    BoardCoords::from_units(x, y)
}

fn step(e: Editor, ev: Event) -> Editor {
    e.update(ev).0
}

fn move_to(e: Editor, x: i64, y: i64) -> Editor {
    step(e, Event::CursorMove { new_pos: AppCoords::new(x, y) })
}

fn key(e: Editor, k: Key) -> Editor {
    step(e, Event::KeyDown { key: k })
}

fn block_down(e: Editor, id: i64, modifier: SelectionModifier) -> Editor {
    step(e, Event::BoardEvent(BlockEvent::MouseDown { button: 0, modifier, id }))
}

#[test]
fn arrow_gesture_creates_a_directed_edge() {
    // Two blocks at board (0,0) and (300,0), made with "n" under the cursor.
    let mut e = Editor::new();
    e = move_to(e, 0, 0);
    e = key(e, Key::N);
    e = move_to(e, 300, 0);
    e = key(e, Key::N);
    let ids = e.board.graph.vertex_ids();
    assert_eq!(ids.len(), 2);
    let (id1, id2) = (ids[0], ids[1]);
    assert_eq!(e.board.graph.get(id1).unwrap().center, units(0, 0));
    assert_eq!(e.board.graph.get(id2).unwrap().center, units(300, 0));
    // Placing the second block left it as the sole selection; make the
    // first block the source by clicking it and releasing without a drag.
    e = block_down(e, id1, SelectionModifier::Replace);
    e = step(e, Event::MouseUp { button: 0 });
    assert!(e.board.graph.get(id1).unwrap().selected);
    assert!(!e.board.graph.get(id2).unwrap().selected);
    // "a" opens arrow creation; hovering the second block previews it.
    e = key(e, Key::A);
    assert_eq!(e.board.phase, Phase::ArrowCreation { stage: StateStages::Start });
    e = step(e, Event::BoardEvent(BlockEvent::MouseOver { id: id2 }));
    assert_eq!(
        e.board.phase,
        Phase::ArrowCreation { stage: StateStages::Preview { end_block: id2 } }
    );
    assert_eq!(e.board.preview_edges(), vec![(id1, id2)], "ghost arrow from the selected source");
    // Mouse-down locks the target; mouse-up commits the edge.
    e = block_down(e, id2, SelectionModifier::Replace);
    assert_eq!(
        e.board.phase,
        Phase::ArrowCreation { stage: StateStages::Finish { end_block: id2 } }
    );
    e = step(e, Event::MouseUp { button: 0 });
    assert!(e.board.graph.has_edge(id1, id2));
    assert!(!e.board.graph.has_edge(id2, id1));
    assert_eq!(e.board.phase, Phase::Basic);
}

#[test]
fn dragging_a_selected_block_moves_it_by_the_cursor_delta() {
    let mut e = Editor::new();
    e = move_to(e, 100, 100);
    e = key(e, Key::N);
    let id = e.board.graph.vertex_ids()[0];
    assert_eq!(e.board.graph.get(id).unwrap().center, units(100, 100));
    e = block_down(e, id, SelectionModifier::Replace);
    assert!(matches!(e.board.phase, Phase::PredragBlocks { .. }));
    // Drag by (50, -20) board units: at the default zoom, pixel deltas are
    // board-unit deltas.
    e = move_to(e, 150, 80);
    assert_eq!(e.board.phase, Phase::DraggingBlocks);
    e = step(e, Event::MouseUp { button: 0 });
    assert_eq!(e.board.phase, Phase::Basic);
    assert_eq!(e.board.graph.get(id).unwrap().center, units(150, 80));
    assert!(e.board.graph.get(id).unwrap().selected, "selection persists after the drag");
}

#[test]
fn marquee_selects_overlapping_blocks_only() {
    let mut e = Editor::new();
    e = move_to(e, 100, 100);
    e = key(e, Key::N);
    e = move_to(e, 1000, 1000);
    e = key(e, Key::N);
    let ids = e.board.graph.vertex_ids();
    let (near, far) = (ids[0], ids[1]);
    // Left-press on empty canvas at board (0,0), drag to (200,200), release.
    e = move_to(e, 0, 0);
    e = step(e, Event::MouseDown { button: 0 });
    assert!(matches!(e.board.phase, Phase::RectangleSelection { .. }));
    e = move_to(e, 200, 200);
    e = step(e, Event::MouseUp { button: 0 });
    assert_eq!(e.board.phase, Phase::Basic);
    assert!(e.board.graph.get(near).unwrap().selected, "150x150 block at (100,100) overlaps");
    assert!(!e.board.graph.get(far).unwrap().selected, "block at (1000,1000) does not");
}

#[test]
fn marquee_updates_selection_live_while_dragging() {
    let mut e = Editor::new();
    e = move_to(e, 100, 100);
    e = key(e, Key::N);
    let id = e.board.graph.vertex_ids()[0];
    e = move_to(e, 0, 0);
    e = step(e, Event::MouseDown { button: 0 });
    assert!(!e.board.graph.get(id).unwrap().selected, "press cleared the selection");
    e = move_to(e, 50, 50);
    assert!(e.board.graph.get(id).unwrap().selected, "marquee touches the block's box");
    e = move_to(e, 10, 10);
    assert!(!e.board.graph.get(id).unwrap().selected, "shrinking the marquee deselects live");
    assert_eq!(e.board.marquee(), Some((units(0, 0), units(10, 10))));
}

#[test]
fn arrow_key_without_selection_stays_basic() {
    let mut e = Editor::new();
    e = move_to(e, 10, 10);
    e = key(e, Key::N);
    let id = e.board.graph.vertex_ids()[0];
    // Deselect the lone block with an additive click-and-release.
    e = block_down(e, id, SelectionModifier::Add);
    e = step(e, Event::MouseUp { button: 0 });
    assert!(!e.board.graph.get(id).unwrap().selected);
    let (e2, redraw) = e.update(Event::KeyDown { key: Key::A });
    assert_eq!(e2.board.phase, Phase::Basic, "no arrow creation without a selection");
    assert!(!redraw);
}

#[test]
fn delete_removes_connected_selected_pair() {
    let mut e = Editor::new();
    e = move_to(e, 0, 0);
    e = key(e, Key::N);
    e = move_to(e, 300, 0);
    e = key(e, Key::N);
    let ids = e.board.graph.vertex_ids();
    let (id1, id2) = (ids[0], ids[1]);
    e.board.graph.add_edge(id1, id2).unwrap();
    e.board.graph.add_edge(id2, id1).unwrap();
    // Select both: the second is still selected from its creation.
    e = block_down(e, id1, SelectionModifier::Add);
    assert_eq!(e.board.graph.selected_ids(), vec![id1, id2]);
    e = key(e, Key::Delete);
    assert_eq!(e.board.graph.vertex_ids(), Vec::<i64>::new());
    assert_eq!(e.board.graph.edges(), Vec::<(i64, i64)>::new());
    assert_eq!(e.board.phase, Phase::Basic);
}

#[test]
fn additive_click_keeps_the_rest_of_the_selection() {
    let mut e = Editor::new();
    e = move_to(e, 0, 0);
    e = key(e, Key::N);
    e = move_to(e, 300, 0);
    e = key(e, Key::N);
    let ids = e.board.graph.vertex_ids();
    let (id1, id2) = (ids[0], ids[1]);
    e = block_down(e, id1, SelectionModifier::Add);
    assert_eq!(e.board.phase, Phase::Basic, "ctrl-click only adds, no predrag");
    assert_eq!(e.board.graph.selected_ids(), vec![id1, id2]);
    // An additive click on an already selected block starts a predrag; a
    // release without motion toggles that block off.
    e = block_down(e, id2, SelectionModifier::Add);
    assert!(matches!(e.board.phase, Phase::PredragBlocks { .. }));
    e = step(e, Event::MouseUp { button: 0 });
    assert_eq!(e.board.graph.selected_ids(), vec![id1]);
}

#[test]
fn plain_release_after_click_forces_sole_selection() {
    let mut e = Editor::new();
    e = move_to(e, 0, 0);
    e = key(e, Key::N);
    e = move_to(e, 300, 0);
    e = key(e, Key::N);
    let ids = e.board.graph.vertex_ids();
    let (id1, id2) = (ids[0], ids[1]);
    e = block_down(e, id1, SelectionModifier::Add);
    assert_eq!(e.board.graph.selected_ids(), vec![id1, id2]);
    // A plain click on the (already selected) first block, released
    // without a drag, re-affirms single selection.
    e = block_down(e, id1, SelectionModifier::Replace);
    e = step(e, Event::MouseUp { button: 0 });
    assert_eq!(e.board.graph.selected_ids(), vec![id1]);
}

#[test]
fn escape_abandons_arrow_creation_without_edges() {
    let mut e = Editor::new();
    e = move_to(e, 0, 0);
    e = key(e, Key::N);
    let id = e.board.graph.vertex_ids()[0];
    e = key(e, Key::A);
    e = step(e, Event::BoardEvent(BlockEvent::MouseOver { id }));
    e = key(e, Key::Escape);
    assert_eq!(e.board.phase, Phase::Basic);
    assert_eq!(e.board.graph.edges(), Vec::<(i64, i64)>::new());
}

#[test]
fn mouse_leave_drops_preview_back_to_start() {
    let mut e = Editor::new();
    e = move_to(e, 0, 0);
    e = key(e, Key::N);
    let id = e.board.graph.vertex_ids()[0];
    e = key(e, Key::A);
    e = step(e, Event::BoardEvent(BlockEvent::MouseOver { id }));
    assert!(e.board.preview_target().is_some());
    e = step(e, Event::BoardEvent(BlockEvent::MouseLeave));
    assert_eq!(e.board.phase, Phase::ArrowCreation { stage: StateStages::Start });
    assert!(e.board.preview_target().is_none());
}

#[test]
fn middle_button_pans_the_viewbox() {
    let mut e = Editor::new();
    e = move_to(e, 100, 100);
    e = step(e, Event::MouseDown { button: 1 });
    e = move_to(e, 150, 120);
    // Panning moves the viewbox opposite to the cursor delta so content
    // follows the cursor.
    assert_eq!(e.viewbox.get_viewbox().pos, units(-50, -20));
    e = step(e, Event::MouseUp { button: 1 });
    e = move_to(e, 200, 200);
    assert_eq!(e.viewbox.get_viewbox().pos, units(-50, -20), "no pan after release");
}

#[test]
fn wheel_zoom_keeps_cursor_anchor_through_the_editor() {
    let mut e = Editor::new();
    e = move_to(e, 321, 123);
    let before = e.viewbox.to_board_coords(AppCoords::new(321, 123));
    e = step(e, Event::MouseWheel { delta: -120 });
    let after = e.viewbox.to_board_coords(AppCoords::new(321, 123));
    assert_eq!(before, after);
    assert_eq!(e.viewbox.get_viewbox().scale_index, 7);
}

#[test]
fn stale_block_press_is_ignored() {
    let mut e = Editor::new();
    e = move_to(e, 0, 0);
    e = key(e, Key::N);
    let (e2, redraw) = e.update(Event::BoardEvent(BlockEvent::MouseDown {
        button: 0,
        modifier: SelectionModifier::Replace,
        id: 999,
    }));
    assert_eq!(e2.board.phase, Phase::Basic);
    assert!(!redraw);
    assert_eq!(e2.board.graph.vertex_ids().len(), 1);
}

#[test]
fn commit_with_stale_target_creates_no_edges() {
    let mut e = Editor::new();
    e = move_to(e, 0, 0);
    e = key(e, Key::N);
    e = key(e, Key::A);
    e = step(e, Event::BoardEvent(BlockEvent::MouseOver { id: 424242 }));
    e = block_down(e, 424242, SelectionModifier::Replace);
    e = step(e, Event::MouseUp { button: 0 });
    assert_eq!(e.board.phase, Phase::Basic);
    assert_eq!(e.board.graph.edges(), Vec::<(i64, i64)>::new());
}

#[test]
fn out_of_range_cursor_positions_are_ignored() {
    let mut e = Editor::new();
    e = move_to(e, 10, 10);
    let (e2, redraw) = e.update(Event::CursorMove {
        new_pos: AppCoords::new(i64::MAX / 2, 0),
    });
    assert!(!redraw);
    assert_eq!(e2.cursor.get(), AppCoords::new(10, 10), "wild positions never enter the state");
}

#[test]
fn delete_with_nothing_selected_removes_nothing() {
    let mut e = Editor::new();
    e = move_to(e, 0, 0);
    e = key(e, Key::N);
    let id = e.board.graph.vertex_ids()[0];
    e = block_down(e, id, SelectionModifier::Add);
    e = step(e, Event::MouseUp { button: 0 });
    assert!(!e.board.graph.get(id).unwrap().selected);
    e = key(e, Key::Delete);
    assert_eq!(e.board.graph.vertex_ids(), vec![id]);
}

#[test]
fn block_placement_follows_the_zoomed_transform() {
    let mut e = Editor::new();
    // One step down the zoom table: each pixel spans 36000 subunits.
    e = step(e, Event::MouseWheel { delta: -1 });
    e = move_to(e, 100, 0);
    e = key(e, Key::N);
    let id = e.board.graph.vertex_ids()[0];
    let center = e.board.graph.get(id).unwrap().center;
    assert_eq!(center, BoardCoords::new(100 * 36000, 0));
}

#[test]
fn unrecognized_events_leave_the_machine_unchanged() {
    let mut e = Editor::new();
    e = move_to(e, 0, 0);
    e = key(e, Key::N);
    let ids = e.board.graph.vertex_ids();
    let before_sel = e.board.graph.selected_ids();
    e = key(e, Key::Other);
    e = key(e, Key::Escape);
    e = step(e, Event::MouseDown { button: 5 });
    e = step(e, Event::MouseUp { button: 5 });
    assert_eq!(e.board.phase, Phase::Basic);
    assert_eq!(e.board.graph.vertex_ids(), ids);
    assert_eq!(e.board.graph.selected_ids(), before_sel);
}
