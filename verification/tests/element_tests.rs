use whiteboard::element::{Element, ElementConfig};
use whiteboard::rect::Rect;
use whiteboard::widget_kind::WidgetKind;

fn config() -> ElementConfig {
    ElementConfig::new("#112233".to_string(), "#445566".to_string())
}

#[test]
fn new_element_is_blank() {
    let e = Element::new(7, WidgetKind::Ellipse, config());
    assert_eq!(e.id, 7);
    assert!(!e.is_selected());
    assert_eq!(e.kind, WidgetKind::Ellipse);
    assert_eq!(e.rect, Rect::new(0, 0, 0, 0));
    assert!(e.shape_string.is_empty());
    assert_eq!(e.config.item_stroke_color, "#112233");
    assert_eq!(e.config.item_bg_color, "#445566");
}

#[test]
fn translate_round_trip_restores_rect() {
    let mut e = Element::new(1, WidgetKind::Rectangle, config());
    e.update_rect(10, 20, 110, 70);
    let original = e.rect;
    e.move_element(35, -17);
    assert_eq!(e.rect, Rect::new(45, 3, 145, 53));
    e.move_element(-35, 17);
    assert_eq!(e.rect, original);
}

#[test]
fn translate_preserves_width_and_height() {
    let mut e = Element::new(1, WidgetKind::Rectangle, config());
    e.update_rect(10, 20, 110, 70);
    e.move_element(9, 11);
    assert_eq!(e.rect.get_width(), 100);
    assert_eq!(e.rect.get_height(), 50);
}

#[test]
fn can_move_detects_coordinate_edge() {
    let mut e = Element::new(1, WidgetKind::Rectangle, config());
    e.update_rect(i32::MAX - 5, 0, i32::MAX - 1, 5);
    assert!(!e.can_move(10, 0));
    assert!(e.can_move(1, 0));
    assert!(e.can_move(-10, 0));
    e.update_rect(i32::MIN + 3, 0, i32::MIN + 8, 5);
    assert!(!e.can_move(-4, 0));
    assert!(e.can_move(-3, 0));
}

#[test]
fn from_copies_everything_but_the_id() {
    let mut e = Element::new(3, WidgetKind::Text, config());
    e.update_rect(1, 2, 3, 4);
    e.update_shape_string(vec!["hello".to_string()]);
    e.set_selected(true);
    let copy = Element::from(&e, 9);
    assert_eq!(copy.id, 9);
    assert!(copy.is_selected());
    assert_eq!(copy.kind, WidgetKind::Text);
    assert_eq!(copy.rect, Rect::new(1, 2, 3, 4));
    assert_eq!(copy.shape_string, vec!["hello".to_string()]);
    assert_eq!(copy.config.item_stroke_color, "#112233");
    assert_eq!(copy.config.item_bg_color, "#445566");
}

#[test]
fn selection_flag_toggles() {
    let mut e = Element::new(1, WidgetKind::Rectangle, config());
    assert!(!e.is_selected());
    e.set_selected(true);
    assert!(e.is_selected());
    e.set_selected(false);
    assert!(!e.is_selected());
}

#[test]
fn kind_names() {
    assert_eq!(WidgetKind::Rectangle.to_string(), "Rectangle");
    assert_eq!(WidgetKind::Ellipse.to_string(), "Ellipse");
    assert_eq!(WidgetKind::Arrow.to_string(), "Arrow");
    assert_eq!(WidgetKind::Text.to_string(), "Text");
    assert_eq!(WidgetKind::Selection.to_string(), "Selection");
    assert_eq!(WidgetKind::default(), WidgetKind::Rectangle);
}
