use settings_app::history::{EditHistory, HistoryEntry, MAX_HISTORY_ENTRIES};
use std::sync::Arc;

#[derive(Clone, Copy, Debug, PartialEq)]
struct Pos {
    x: f32,
    y: f32,
}

#[derive(Clone, Copy, Debug, PartialEq)]
struct Rect {
    min: Pos,
    max: Pos,
}

fn rect(x0: f32, y0: f32, x1: f32, y1: f32) -> Rect {
    Rect { min: Pos { x: x0, y: y0 }, max: Pos { x: x1, y: y1 } }
}

#[derive(Debug)]
struct Shape {
    start: Pos,
    end: Pos,
    text: Option<Arc<str>>,
    points: Option<Arc<Vec<Pos>>>,
    cached_galley: Option<Arc<String>>,
    cached_mosaic: Option<Arc<Vec<u8>>>,
}

/// A copy shares the text and the points and leaves the render caches
/// behind, as the screenshot tool's shapes do.
impl Clone for Shape {
    fn clone(&self) -> Self {
        Shape {
            start: self.start,
            end: self.end,
            text: self.text.clone(),
            points: self.points.clone(),
            cached_galley: None,
            cached_mosaic: None,
        }
    }
}

fn make_shape(start_x: f32) -> Shape {
    Shape {
        start: Pos { x: start_x, y: 0.0 },
        end: Pos { x: start_x + 10.0, y: 10.0 },
        text: None,
        points: None,
        cached_galley: None,
        cached_mosaic: None,
    }
}

type State = EditHistory<Shape, Rect>;

#[test]
fn selection_history_shares_shape_payloads() {
    let shared_text: Arc<str> = Arc::from("hello");
    let shared_points = Arc::new(vec![Pos { x: 1.0, y: 2.0 }, Pos { x: 3.0, y: 4.0 }]);
    let mut state = State::new();
    state.shapes.push(Shape {
        start: Pos { x: 0.0, y: 0.0 },
        end: Pos { x: 10.0, y: 10.0 },
        text: Some(shared_text.clone()),
        points: Some(shared_points.clone()),
        cached_galley: Some(Arc::new(String::from("layout"))),
        cached_mosaic: Some(Arc::new(vec![1, 2, 3])),
    });

    state.record_selection_change(None);

    let HistoryEntry::RestoreSelectionAndShapes { shapes, .. } = &state.history[0] else {
        panic!("expected selection restore history entry");
    };

    let snapshot = &shapes[0];
    assert!(Arc::ptr_eq(snapshot.text.as_ref().expect("text missing"), &shared_text));
    assert!(Arc::ptr_eq(snapshot.points.as_ref().expect("points missing"), &shared_points));
    assert!(snapshot.cached_galley.is_none());
    assert!(snapshot.cached_mosaic.is_none());
}

#[test]
fn history_is_bounded() {
    let mut state = State::new();

    for index in 0..=MAX_HISTORY_ENTRIES {
        state.record_shape_added(index);
    }

    assert_eq!(state.history.len(), MAX_HISTORY_ENTRIES);
}

#[test]
fn undo_redo_shape_addition_roundtrip() {
    let mut state = State::new();
    state.shapes.push(make_shape(10.0));
    state.record_shape_added(0);

    state.undo_last();
    assert!(state.shapes.is_empty());
    assert!(state.history.is_empty());
    assert_eq!(state.redo.len(), 1);

    state.redo_last();
    assert_eq!(state.shapes.len(), 1);
    assert_eq!(state.shapes[0].start.x, 10.0);
    assert_eq!(state.history.len(), 1);
    assert!(state.redo.is_empty());
}

#[test]
fn undo_redo_shape_edit_roundtrip() {
    let mut state = State::new();
    state.shapes.push(make_shape(10.0));
    state.record_shape_before_edit(0);
    state.shapes[0].start.x = 40.0;
    state.shapes[0].end.x = 60.0;

    state.undo_last();
    assert_eq!(state.shapes[0].start.x, 10.0);
    assert_eq!(state.shapes[0].end.x, 20.0);

    state.redo_last();
    assert_eq!(state.shapes[0].start.x, 40.0);
    assert_eq!(state.shapes[0].end.x, 60.0);
}

#[test]
fn undo_redo_selection_change_roundtrip() {
    let mut state = State::new();
    let original_selection = Some(rect(0.0, 0.0, 100.0, 100.0));
    let changed_selection = Some(rect(10.0, 10.0, 80.0, 80.0));

    state.set_selection(original_selection);
    state.shapes.push(make_shape(5.0));
    state.record_selection_change(original_selection);

    state.set_selection(changed_selection);
    state.shapes.clear();

    assert!(state.undo_last());
    assert_eq!(state.selection, original_selection);
    assert_eq!(state.shapes.len(), 1);
    assert_eq!(state.shapes[0].start.x, 5.0);

    assert!(state.redo_last());
    assert_eq!(state.selection, changed_selection);
    assert!(state.shapes.is_empty());
}

#[test]
fn redo_is_cleared_after_new_edit() {
    let mut state = State::new();
    state.shapes.push(make_shape(10.0));
    state.record_shape_added(0);
    state.undo_last();

    state.shapes.push(make_shape(20.0));
    state.record_shape_added(0);

    assert!(state.redo.is_empty());

    state.redo_last();
    assert_eq!(state.shapes.len(), 1);
    assert_eq!(state.shapes[0].start.x, 20.0);
}

#[test]
fn removal_is_undone_at_its_position() {
    let mut state = State::new();
    state.shapes.push(make_shape(1.0));
    state.shapes.push(make_shape(2.0));
    state.shapes.push(make_shape(3.0));
    let removed = state.shapes.remove(1);
    state.record_shape_removed(1, removed);
    assert!(!state.undo_last());
    let xs: Vec<f32> = state.shapes.iter().map(|s| s.start.x).collect();
    assert_eq!(xs, vec![1.0, 2.0, 3.0]);
    state.redo_last();
    let xs: Vec<f32> = state.shapes.iter().map(|s| s.start.x).collect();
    assert_eq!(xs, vec![1.0, 3.0]);
}

#[test]
fn undo_with_empty_history_changes_nothing() {
    let mut state = State::new();
    state.shapes.push(make_shape(1.0));
    assert!(!state.undo_last());
    assert!(!state.redo_last());
    assert_eq!(state.shapes.len(), 1);
    assert!(state.history.is_empty() && state.redo.is_empty());
}

#[test]
fn out_of_range_entry_is_dropped() {
    let mut state = State::new();
    state.record_shape_added(3);
    assert!(!state.undo_last());
    assert!(state.shapes.is_empty());
    assert!(state.history.is_empty());
    assert!(state.redo.is_empty());
}

#[test]
fn edit_record_at_missing_index_does_nothing() {
    let mut state = State::new();
    state.record_shape_before_edit(0);
    assert!(state.history.is_empty());
}

#[test]
fn redo_stack_is_bounded_too() {
    let mut state = State::new();
    for i in 0..(MAX_HISTORY_ENTRIES + 5) {
        state.shapes.push(make_shape(i as f32));
        state.record_shape_added(i);
    }
    assert_eq!(state.history.len(), MAX_HISTORY_ENTRIES);
    for _ in 0..MAX_HISTORY_ENTRIES {
        state.undo_last();
    }
    assert_eq!(state.redo.len(), MAX_HISTORY_ENTRIES);
    assert_eq!(state.shapes.len(), 5);
    assert!(state.history.is_empty());
}

#[test]
fn undo_then_redo_restores_everything() {
    let mut state = State::new();
    state.shapes.push(make_shape(1.0));
    state.record_shape_added(0);
    state.record_shape_before_edit(0);
    state.shapes[0].start.x = 7.0;
    let before_len = state.history.len();
    state.undo_last();
    state.redo_last();
    assert_eq!(state.history.len(), before_len);
    assert_eq!(state.shapes[0].start.x, 7.0);
    assert!(state.redo.is_empty());
}
