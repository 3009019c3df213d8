use whiteboard::element::{Element, ElementConfig};
use whiteboard::rect::Rect;
use whiteboard::scene::AppData;
use whiteboard::widget_kind::WidgetKind;

fn config() -> ElementConfig {
    ElementConfig::new("#000000".to_string(), "#ffffff".to_string())
}

fn scene_with(rects: &[(WidgetKind, (i32, i32, i32, i32))]) -> AppData {
    let mut data = AppData::new();
    for (kind, (x1, y1, x2, y2)) in rects {
        let id = data.create_element(*kind, config());
        data.update_element_rect(id, *x1, *y1, *x2, *y2);
    }
    data
}

#[test]
fn created_ids_are_fresh_and_monotonic() {
    let mut data = AppData::new();
    let a = data.create_element(WidgetKind::Rectangle, config());
    let b = data.create_element(WidgetKind::Ellipse, config());
    let c = data.create_element(WidgetKind::Arrow, config());
    assert!(a < b && b < c);
    data.delete_selected_elements();
    let d = data.create_element(WidgetKind::Text, config());
    assert!(c < d);
}

#[test]
fn lookup_by_id_and_not_found_is_noop() {
    let mut data = scene_with(&[(WidgetKind::Rectangle, (0, 0, 10, 10))]);
    let id = data.elements[0].id;
    assert_eq!(data.get_element(id).unwrap().kind, WidgetKind::Rectangle);
    assert!(data.get_element(id + 100).is_none());
    // Updates aimed at a missing id change nothing.
    data.update_element_rect(id + 100, 5, 5, 6, 6);
    data.set_element_selected(id + 100, true);
    data.update_element_shape(id + 100, vec!["x".to_string()]);
    assert_eq!(data.elements.len(), 1);
    assert_eq!(data.elements[0].rect, Rect::new(0, 0, 10, 10));
    assert!(!data.elements[0].is_selected());
    assert!(data.elements[0].shape_string.is_empty());
}

#[test]
fn marquee_selects_only_fully_contained() {
    let mut data = scene_with(&[
        (WidgetKind::Rectangle, (10, 10, 50, 50)),
        (WidgetKind::Ellipse, (60, 60, 160, 160)),
        (WidgetKind::Arrow, (300, 300, 310, 310)),
    ]);
    // The marquee fully contains the first, partially overlaps the second,
    // misses the third.
    data.select_elements(Rect::new(0, 0, 100, 100));
    assert!(data.elements[0].is_selected());
    assert!(!data.elements[1].is_selected());
    assert!(!data.elements[2].is_selected());
}

#[test]
fn marquee_selection_ignores_drag_direction() {
    let mut data = scene_with(&[(WidgetKind::Rectangle, (10, 10, 50, 50))]);
    data.select_elements(Rect::new(100, 100, 0, 0));
    assert!(data.elements[0].is_selected());
}

#[test]
fn select_one_replaces_or_adds() {
    let mut data = scene_with(&[
        (WidgetKind::Rectangle, (0, 0, 10, 10)),
        (WidgetKind::Rectangle, (20, 0, 30, 10)),
    ]);
    let first = data.elements[0].id;
    let second = data.elements[1].id;
    data.select_element(first, false);
    assert!(data.elements[0].is_selected());
    assert!(!data.elements[1].is_selected());
    // Additive keeps the old selection.
    data.select_element(second, true);
    assert!(data.elements[0].is_selected());
    assert!(data.elements[1].is_selected());
    // Non-additive selects exactly one.
    data.select_element(second, false);
    assert!(!data.elements[0].is_selected());
    assert!(data.elements[1].is_selected());
}

#[test]
fn select_all_then_delete_empties_the_scene() {
    let mut data = scene_with(&[
        (WidgetKind::Rectangle, (0, 0, 10, 10)),
        (WidgetKind::Ellipse, (20, 0, 30, 10)),
        (WidgetKind::Selection, (0, 0, 100, 100)),
    ]);
    data.select_all_elements();
    data.delete_selected_elements();
    assert_eq!(data.elements.len(), 0);
}

#[test]
fn delete_removes_only_selected() {
    let mut data = scene_with(&[
        (WidgetKind::Rectangle, (0, 0, 10, 10)),
        (WidgetKind::Ellipse, (20, 0, 30, 10)),
    ]);
    let first = data.elements[0].id;
    data.select_element(first, false);
    data.delete_selected_elements();
    assert_eq!(data.elements.len(), 1);
    assert_eq!(data.elements[0].kind, WidgetKind::Ellipse);
}

#[test]
fn clean_strips_marquee_elements_only() {
    let mut data = scene_with(&[
        (WidgetKind::Selection, (0, 0, 5, 5)),
        (WidgetKind::Rectangle, (0, 0, 10, 10)),
        (WidgetKind::Selection, (1, 1, 2, 2)),
    ]);
    data.clean();
    assert_eq!(data.elements.len(), 1);
    assert_eq!(data.elements[0].kind, WidgetKind::Rectangle);
}

#[test]
fn move_selected_translates_exactly() {
    let mut data = scene_with(&[
        (WidgetKind::Rectangle, (0, 0, 10, 10)),
        (WidgetKind::Ellipse, (20, 0, 30, 10)),
    ]);
    let first = data.elements[0].id;
    data.select_element(first, false);
    data.move_selected_elements(7, -3);
    assert_eq!(data.elements[0].rect, Rect::new(7, -3, 17, 7));
    assert_eq!(data.elements[1].rect, Rect::new(20, 0, 30, 10));
}

#[test]
fn move_all_translates_everything() {
    let mut data = scene_with(&[
        (WidgetKind::Rectangle, (0, 0, 10, 10)),
        (WidgetKind::Ellipse, (20, 0, 30, 10)),
    ]);
    data.move_all_elements(1, 2);
    assert_eq!(data.elements[0].rect, Rect::new(1, 2, 11, 12));
    assert_eq!(data.elements[1].rect, Rect::new(21, 2, 31, 12));
}

#[test]
fn can_move_selected_detects_overflow() {
    let mut data = scene_with(&[(WidgetKind::Rectangle, (0, 0, 10, 10))]);
    let id = data.elements[0].id;
    data.update_element_rect(id, i32::MAX - 5, 0, i32::MAX - 1, 5);
    data.select_element(id, false);
    assert!(!data.can_move_selected(10, 0));
    assert!(data.can_move_selected(-10, 0));
}

#[test]
fn first_element_wins_overlapping_point_lookup() {
    let data = scene_with(&[
        (WidgetKind::Rectangle, (0, 0, 100, 100)),
        (WidgetKind::Ellipse, (0, 0, 100, 100)),
    ]);
    let hit = data.get_element_by_point(50, 50).unwrap();
    assert_eq!(hit.kind, WidgetKind::Rectangle);
    assert!(data.get_element_by_point(200, 200).is_none());
}

#[test]
fn hit_lookup_uses_outline_policy() {
    let data = scene_with(&[(WidgetKind::Rectangle, (10, 10, 110, 60))]);
    assert!(data.get_element_by_hit(60, 10).is_some());
    assert!(data.get_element_by_hit(60, 35).is_none());
}

#[test]
fn selected_elements_keep_scene_order() {
    let mut data = scene_with(&[
        (WidgetKind::Rectangle, (0, 0, 10, 10)),
        (WidgetKind::Ellipse, (20, 0, 30, 10)),
        (WidgetKind::Arrow, (40, 0, 50, 10)),
    ]);
    let first = data.elements[0].id;
    let third = data.elements[2].id;
    data.select_element(first, false);
    data.select_element(third, true);
    let selected = data.get_selected_elements();
    assert_eq!(selected.len(), 2);
    assert_eq!(selected[0].kind, WidgetKind::Rectangle);
    assert_eq!(selected[1].kind, WidgetKind::Arrow);
}

#[test]
fn paste_appends_fresh_offset_copies() {
    let mut data = scene_with(&[
        (WidgetKind::Rectangle, (10, 10, 50, 50)),
        (WidgetKind::Ellipse, (100, 100, 150, 150)),
    ]);
    data.select_all_elements();
    let clipboard: Vec<Element> = data
        .get_selected_elements()
        .iter()
        .map(|e| Element::from(e, e.id))
        .collect();
    assert_eq!(clipboard.len(), 2);
    let old_first = data.elements[0].id;
    let old_second = data.elements[1].id;
    assert!(data.paste_elements(&clipboard));
    assert_eq!(data.elements.len(), 4);
    // Originals unchanged and still selected.
    assert_eq!(data.elements[0].rect, Rect::new(10, 10, 50, 50));
    assert_eq!(data.elements[1].rect, Rect::new(100, 100, 150, 150));
    assert!(data.elements[0].is_selected());
    assert!(data.elements[1].is_selected());
    // Pasted copies: fresh ids, translated by (10, 10), selected.
    assert!(data.elements[2].id > old_second && data.elements[3].id > data.elements[2].id);
    assert_ne!(data.elements[2].id, old_first);
    assert_eq!(data.elements[2].rect, Rect::new(20, 20, 60, 60));
    assert_eq!(data.elements[3].rect, Rect::new(110, 110, 160, 160));
    assert!(data.elements[2].is_selected());
    assert!(data.elements[3].is_selected());
}

#[test]
fn paste_at_coordinate_edge_is_refused() {
    let mut data = AppData::new();
    let mut e = Element::new(1, WidgetKind::Rectangle, config());
    e.update_rect(i32::MAX - 5, 0, i32::MAX - 1, 5);
    assert!(!data.paste_elements(&vec![e]));
    assert_eq!(data.elements.len(), 0);
}

#[test]
fn reloaded_scene_is_unselected() {
    let mut data = scene_with(&[
        (WidgetKind::Rectangle, (10, 10, 50, 50)),
        (WidgetKind::Text, (60, 60, 80, 80)),
    ]);
    let id = data.elements[0].id;
    data.set_element_selected(id, true);
    // Persistence round-trips the element list; reloading forces every
    // element unselected and keeps the stored identifiers.
    let ids: Vec<u64> = data.elements.iter().map(|e| e.id).collect();
    let saved: Vec<Element> = data.elements.iter().map(|e| Element::from(e, e.id)).collect();
    let reloaded = AppData::from_elements(saved);
    assert_eq!(reloaded.elements.len(), 2);
    assert!(reloaded.elements.iter().all(|e| !e.is_selected()));
    assert_eq!(reloaded.elements[0].rect, Rect::new(10, 10, 50, 50));
    assert_eq!(reloaded.elements[0].kind, WidgetKind::Rectangle);
    assert_eq!(reloaded.elements[1].kind, WidgetKind::Text);
    assert_eq!(reloaded.elements[0].id, ids[0]);
    assert_eq!(reloaded.elements[1].id, ids[1]);
    // The counter resumes above the largest stored identifier.
    assert_eq!(reloaded.next_id, ids[1] + 1);
}

#[test]
fn reload_remints_unusable_ids() {
    // Two stored elements sharing an identifier (corrupt storage): the
    // load re-mints fresh identifiers in order.
    let make = |id: u64| {
        let mut e = Element::new(id, WidgetKind::Rectangle, config());
        e.set_selected(true);
        e
    };
    let reloaded = AppData::from_elements(vec![make(7), make(7), make(0)]);
    assert_eq!(reloaded.elements.len(), 3);
    let ids: Vec<u64> = reloaded.elements.iter().map(|e| e.id).collect();
    assert_eq!(ids, vec![1, 2, 3]);
    assert!(reloaded.elements.iter().all(|e| !e.is_selected()));
    assert_eq!(reloaded.next_id, 4);
}

#[test]
fn clean_selected_state_deselects_everything() {
    let mut data = scene_with(&[
        (WidgetKind::Rectangle, (0, 0, 10, 10)),
        (WidgetKind::Ellipse, (20, 0, 30, 10)),
    ]);
    data.select_all_elements();
    data.clean_selected_state();
    assert!(data.elements.iter().all(|e| !e.is_selected()));
}
