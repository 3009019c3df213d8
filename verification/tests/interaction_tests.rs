use whiteboard::element::{Element, ElementConfig};
use whiteboard::interaction::{
    pointer_down, pointer_move, pointer_up, text_pointer_down, MoveOutcome, Session,
};
use whiteboard::rect::{fix_rect, Rect};
use whiteboard::scene::AppData;
use whiteboard::store::AppState;
use whiteboard::widget_kind::WidgetKind;

fn state_with(rects: &[(WidgetKind, (i32, i32, i32, i32))]) -> AppState {
    let mut data = AppData::new();
    for (kind, (x1, y1, x2, y2)) in rects {
        let id = data.create_element(
            *kind,
            ElementConfig::new("#000000".to_string(), "#ffffff".to_string()),
        );
        data.update_element_rect(id, *x1, *y1, *x2, *y2);
    }
    AppState::new(data)
}

#[test]
fn draw_rectangle_by_drag() {
    let mut state = state_with(&[]);
    state.set_selected_kind(WidgetKind::Rectangle);
    let mut session = Session::new();

    pointer_down(&mut state, &mut session, 10, 10);
    assert_eq!(state.app_data.elements.len(), 1);
    let id = session.drawing_id;
    assert!(id > 0);

    match pointer_move(&mut state, &mut session, 110, 60) {
        MoveOutcome::Drawing { id: moved_id, configs } => {
            assert_eq!(moved_id, id);
            assert_eq!(configs.len(), 1);
        }
        other => panic!("expected a drawing outcome, got {:?}", other),
    }
    let element = state.app_data.get_element(id).unwrap();
    let normalized = fix_rect(&element.rect);
    assert_eq!(normalized, Rect::new(10, 10, 110, 60));
    assert_eq!(normalized.get_width(), 100);
    assert_eq!(normalized.get_height(), 50);

    pointer_up(&mut state, &mut session, 110, 60, false);
    // The drawn element is selected, the tool reverts to selection, the
    // session resets.
    let element = state.app_data.get_element(id).unwrap();
    assert!(element.is_selected());
    assert_eq!(state.selected_kind, WidgetKind::Selection);
    assert_eq!(session, Session::new());
}

#[test]
fn drawing_a_new_shape_deselects_the_rest() {
    let mut state = state_with(&[(WidgetKind::Rectangle, (0, 0, 50, 50))]);
    let first = state.app_data.elements[0].id;
    state.app_data.select_element(first, false);
    state.set_selected_kind(WidgetKind::Ellipse);
    let mut session = Session::new();
    pointer_down(&mut state, &mut session, 100, 100);
    assert!(!state.app_data.elements[0].is_selected());
}

#[test]
fn marquee_drag_selects_contained_elements() {
    let mut state = state_with(&[
        (WidgetKind::Rectangle, (10, 10, 50, 50)),
        (WidgetKind::Ellipse, (60, 60, 160, 160)),
    ]);
    let mut session = Session::new();
    // Selection tool is the default; press on empty canvas.
    pointer_down(&mut state, &mut session, 200, 5);
    assert!(!session.dragging);
    // Drag a marquee over the first element (fully) and the second
    // (partially).
    pointer_move(&mut state, &mut session, 0, 100);
    assert!(state.app_data.elements[0].is_selected());
    assert!(!state.app_data.elements[1].is_selected());
    pointer_up(&mut state, &mut session, 0, 100, false);
    // The transient marquee element is stripped, the selection remains.
    assert_eq!(state.app_data.elements.len(), 2);
    assert!(state.app_data.elements[0].is_selected());
    assert!(!state.app_data.elements[1].is_selected());
}

#[test]
fn pressing_an_unselected_element_starts_a_marquee() {
    // Dragging only starts over an already-selected element; over an
    // unselected one the press begins a marquee drag instead.
    let mut state = state_with(&[(WidgetKind::Rectangle, (10, 10, 50, 50))]);
    let mut session = Session::new();
    pointer_down(&mut state, &mut session, 20, 20);
    assert!(!session.dragging);
    // Moving the pointer resizes the marquee (a drawing outcome, not a
    // drag), and the element it only partially covers is not selected.
    match pointer_move(&mut state, &mut session, 60, 60) {
        MoveOutcome::Drawing { .. } => {}
        other => panic!("expected a marquee drawing outcome, got {:?}", other),
    }
    assert!(!state.app_data.elements[0].is_selected());
    pointer_up(&mut state, &mut session, 60, 60, false);
    // The transient marquee is stripped on release.
    assert_eq!(state.app_data.elements.len(), 1);
}

#[test]
fn dragging_from_an_unselected_element_moves_nothing() {
    let mut state = state_with(&[
        (WidgetKind::Rectangle, (10, 10, 50, 50)),
        (WidgetKind::Rectangle, (100, 100, 150, 150)),
    ]);
    let second = state.app_data.elements[1].id;
    state.app_data.select_element(second, false);
    let mut session = Session::new();
    // Press inside the unselected first element: no drag is armed, so the
    // selected second element stays where it is.
    pointer_down(&mut state, &mut session, 20, 20);
    assert!(!session.dragging);
    pointer_move(&mut state, &mut session, 30, 30);
    assert_eq!(state.app_data.elements[1].rect, Rect::new(100, 100, 150, 150));
    pointer_up(&mut state, &mut session, 30, 30, false);
}

#[test]
fn click_on_outline_selects_one_element() {
    let mut state = state_with(&[
        (WidgetKind::Rectangle, (10, 10, 110, 60)),
        (WidgetKind::Rectangle, (200, 200, 300, 300)),
    ]);
    let mut session = Session::new();
    // Click (press and release without moving) near the left edge of the
    // first element.
    pointer_down(&mut state, &mut session, 12, 30);
    pointer_up(&mut state, &mut session, 12, 30, false);
    assert_eq!(state.app_data.elements.len(), 2);
    assert!(state.app_data.elements[0].is_selected());
    assert!(!state.app_data.elements[1].is_selected());
}

#[test]
fn click_on_nothing_clears_the_selection() {
    let mut state = state_with(&[(WidgetKind::Rectangle, (10, 10, 110, 60))]);
    let first = state.app_data.elements[0].id;
    state.app_data.select_element(first, false);
    let mut session = Session::new();
    pointer_down(&mut state, &mut session, 500, 500);
    pointer_up(&mut state, &mut session, 500, 500, false);
    assert!(!state.app_data.elements[0].is_selected());
}

#[test]
fn shift_click_adds_to_the_selection() {
    let mut state = state_with(&[
        (WidgetKind::Rectangle, (10, 10, 110, 60)),
        (WidgetKind::Rectangle, (200, 200, 300, 300)),
    ]);
    let first = state.app_data.elements[0].id;
    state.app_data.select_element(first, false);
    let mut session = Session::new();
    pointer_down(&mut state, &mut session, 202, 250);
    pointer_up(&mut state, &mut session, 202, 250, true);
    assert!(state.app_data.elements[0].is_selected());
    assert!(state.app_data.elements[1].is_selected());
}

#[test]
fn dragging_moves_the_selection_incrementally() {
    let mut state = state_with(&[(WidgetKind::Rectangle, (10, 10, 50, 50))]);
    let first = state.app_data.elements[0].id;
    state.app_data.select_element(first, false);
    let mut session = Session::new();
    // Press inside the selected element: arms dragging.
    pointer_down(&mut state, &mut session, 20, 20);
    assert!(session.dragging);
    match pointer_move(&mut state, &mut session, 25, 28) {
        MoveOutcome::Dragged => {}
        other => panic!("expected a drag outcome, got {:?}", other),
    }
    assert_eq!(state.app_data.elements[0].rect, Rect::new(15, 18, 55, 58));
    // Incremental deltas: the next move is relative to the last position.
    pointer_move(&mut state, &mut session, 26, 28);
    assert_eq!(state.app_data.elements[0].rect, Rect::new(16, 18, 56, 58));
    pointer_up(&mut state, &mut session, 26, 28, false);
    assert_eq!(state.app_data.elements.len(), 1);
}

#[test]
fn text_tool_places_a_selected_text_element() {
    let mut state = state_with(&[]);
    state.set_selected_kind(WidgetKind::Text);
    text_pointer_down(&mut state, 40, 50, 60, 20, "hello".to_string());
    assert_eq!(state.app_data.elements.len(), 1);
    let e = &state.app_data.elements[0];
    assert_eq!(e.kind, WidgetKind::Text);
    assert_eq!(e.rect, Rect::new(40, 50, 100, 70));
    assert_eq!(e.shape_string, vec!["hello".to_string()]);
    assert!(e.is_selected());
}

#[test]
fn empty_text_aborts_without_an_element() {
    let mut state = state_with(&[]);
    state.set_selected_kind(WidgetKind::Text);
    text_pointer_down(&mut state, 40, 50, 0, 20, "".to_string());
    assert_eq!(state.app_data.elements.len(), 0);
}

#[test]
fn paste_selects_nothing_new_but_keeps_flags() {
    // Copy two selected elements, paste: the scene gains two fresh copies at
    // (+10, +10); the originals are unchanged and still selected.
    let mut state = state_with(&[
        (WidgetKind::Rectangle, (10, 10, 50, 50)),
        (WidgetKind::Ellipse, (100, 100, 150, 150)),
    ]);
    state.app_data.select_all_elements();
    let clipboard: Vec<Element> = state
        .app_data
        .get_selected_elements()
        .iter()
        .map(|e| Element::from(e, e.id))
        .collect();
    assert!(state.app_data.paste_elements(&clipboard));
    assert_eq!(state.app_data.elements.len(), 4);
    assert_eq!(state.app_data.elements[2].rect, Rect::new(20, 20, 60, 60));
    assert_eq!(state.app_data.elements[3].rect, Rect::new(110, 110, 160, 160));
    assert!(state.app_data.elements[0].is_selected());
    assert!(state.app_data.elements[1].is_selected());
    assert!(state.app_data.elements[2].is_selected());
    assert!(state.app_data.elements[3].is_selected());
}
