use whiteboard::rect::Rect;
use whiteboard::widget::{create_widget, PathConfig, Rectangle, Selection};
use whiteboard::widget_kind::WidgetKind;

#[test]
fn rectangle_config_is_anchored_at_origin() {
    let configs = create_widget(
        WidgetKind::Rectangle,
        Rect::new(10, 10, 110, 60),
        "#123456".to_string(),
        "#654321".to_string(),
    );
    assert_eq!(configs.len(), 1);
    match &configs[0] {
        PathConfig::Rectangle { x, y, w, h, stroke, fill } => {
            assert_eq!((*x, *y, *w, *h), (0, 0, 100, 50));
            assert_eq!(stroke, "#123456");
            assert_eq!(fill, "#654321");
        }
        other => panic!("expected a rectangle request, got {:?}", other),
    }
}

#[test]
fn ellipse_config_is_centered() {
    let configs = create_widget(
        WidgetKind::Ellipse,
        Rect::new(0, 0, 100, 50),
        "#000000".to_string(),
        "#ffffff".to_string(),
    );
    assert_eq!(configs.len(), 1);
    match &configs[0] {
        PathConfig::Ellipse { center_x, center_y, w, h, .. } => {
            assert_eq!((*center_x, *center_y, *w, *h), (50, 25, 100, 50));
        }
        other => panic!("expected an ellipse request, got {:?}", other),
    }
}

#[test]
fn rectangle_extent_is_normalized() {
    // Dragged up and to the left: the request still carries the
    // non-negative width and height.
    let configs = create_widget(
        WidgetKind::Rectangle,
        Rect::new(110, 60, 10, 10),
        "#000000".to_string(),
        "#ffffff".to_string(),
    );
    match &configs[0] {
        PathConfig::Rectangle { x, y, w, h, .. } => {
            assert_eq!((*x, *y, *w, *h), (0, 0, 100, 50));
        }
        other => panic!("expected a rectangle request, got {:?}", other),
    }
}

#[test]
fn ellipse_extent_is_normalized_and_center_truncates() {
    let configs = create_widget(
        WidgetKind::Ellipse,
        Rect::new(0, 0, -5, -7),
        "#000000".to_string(),
        "#ffffff".to_string(),
    );
    match &configs[0] {
        PathConfig::Ellipse { center_x, center_y, w, h, .. } => {
            assert_eq!((*center_x, *center_y, *w, *h), (2, 3, 5, 7));
        }
        other => panic!("expected an ellipse request, got {:?}", other),
    }
}

#[test]
fn arrow_config_carries_the_extent() {
    let configs = create_widget(
        WidgetKind::Arrow,
        Rect::new(10, 10, 110, 60),
        "#000000".to_string(),
        "#ffffff".to_string(),
    );
    assert_eq!(configs.len(), 1);
    match &configs[0] {
        PathConfig::Arrow { w, h, .. } => {
            assert_eq!((*w, *h), (100, 50));
        }
        other => panic!("expected an arrow request, got {:?}", other),
    }
    // The arrow extent stays signed: it encodes the arrow's direction.
    let back = create_widget(
        WidgetKind::Arrow,
        Rect::new(110, 60, 10, 10),
        "#000000".to_string(),
        "#ffffff".to_string(),
    );
    match &back[0] {
        PathConfig::Arrow { w, h, .. } => {
            assert_eq!((*w, *h), (-100, -50));
        }
        other => panic!("expected an arrow request, got {:?}", other),
    }
}

#[test]
fn text_and_marquee_have_no_path() {
    let text = create_widget(
        WidgetKind::Text,
        Rect::new(0, 0, 10, 10),
        "#000000".to_string(),
        "#ffffff".to_string(),
    );
    assert!(text.is_empty());
    let marquee = create_widget(
        WidgetKind::Selection,
        Rect::new(0, 0, 10, 10),
        "#000000".to_string(),
        "#ffffff".to_string(),
    );
    assert!(marquee.is_empty());
    assert!(Selection::new().get_config().is_empty());
}

#[test]
fn widget_structs_keep_their_style() {
    let w = Rectangle::new(
        Rect::new(0, 0, 4, 4),
        "#0a0b0c".to_string(),
        "#0d0e0f".to_string(),
    );
    let configs = w.get_config();
    match &configs[0] {
        PathConfig::Rectangle { stroke, fill, .. } => {
            assert_eq!(stroke, "#0a0b0c");
            assert_eq!(fill, "#0d0e0f");
        }
        other => panic!("expected a rectangle request, got {:?}", other),
    }
}
