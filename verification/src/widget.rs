//! The shape factory: maps a widget kind, geometry and style to the
//! parameters of the sketchy path generator.
//!
//! The generator itself is an external collaborator: it turns these
//! parameters into an opaque, replayable path description that the scene
//! only stores and replays.  This module computes, and pins down, exactly
//! which generator calls are made for each widget kind.

use vstd::prelude::*;

use crate::rect::Rect;
use crate::widget_kind::WidgetKind;

verus! {

/// The mathematical value of one generator request.
#[verifier::ext_equal]
pub enum PathConfigView {
    Rectangle { x: i32, y: i32, w: i32, h: i32, stroke: Seq<char>, fill: Seq<char> },
    Ellipse { center_x: i32, center_y: i32, w: i32, h: i32, stroke: Seq<char>, fill: Seq<char> },
    Arrow { w: i32, h: i32, stroke: Seq<char>, fill: Seq<char> },
}

/// One request to the sketchy path generator.
///
/// `Rectangle` and `Ellipse` carry the generator's numeric arguments
/// directly.  `Arrow` carries the arrow's signed extent; the drawing shell
/// expands it into the shaft and the two head strokes, since the head
/// rotation is floating-point geometry.
#[derive(Debug)]
pub enum PathConfig {
    Rectangle { x: i32, y: i32, w: i32, h: i32, stroke: String, fill: String },
    Ellipse { center_x: i32, center_y: i32, w: i32, h: i32, stroke: String, fill: String },
    Arrow { w: i32, h: i32, stroke: String, fill: String },
}

impl View for PathConfig {
    type V = PathConfigView;

    open spec fn view(&self) -> PathConfigView {
        match self {
            PathConfig::Rectangle { x, y, w, h, stroke, fill } => PathConfigView::Rectangle {
                x: *x,
                y: *y,
                w: *w,
                h: *h,
                stroke: stroke@,
                fill: fill@,
            },
            PathConfig::Ellipse { center_x, center_y, w, h, stroke, fill } => PathConfigView::Ellipse {
                center_x: *center_x,
                center_y: *center_y,
                w: *w,
                h: *h,
                stroke: stroke@,
                fill: fill@,
            },
            PathConfig::Arrow { w, h, stroke, fill } => PathConfigView::Arrow {
                w: *w,
                h: *h,
                stroke: stroke@,
                fill: fill@,
            },
        }
    }
}

impl DeepView for PathConfig {
    type V = PathConfigView;

    open spec fn deep_view(&self) -> PathConfigView {
        self.view()
    }
}

/// Whether the width and height of `r` fit in i32, whichever way the
/// shape was dragged out.
pub open spec fn spec_span_ok(r: Rect) -> bool {
    &&& -i32::MAX <= r.end_x - r.start_x <= i32::MAX
    &&& -i32::MAX <= r.end_y - r.start_y <= i32::MAX
}

/// The normalized (non-negative) width of `r`.
pub open spec fn spec_norm_width(r: Rect) -> int {
    if r.end_x >= r.start_x {
        r.end_x - r.start_x
    } else {
        r.start_x - r.end_x
    }
}

/// The normalized (non-negative) height of `r`.
pub open spec fn spec_norm_height(r: Rect) -> int {
    if r.end_y >= r.start_y {
        r.end_y - r.start_y
    } else {
        r.start_y - r.end_y
    }
}

/// The generator requests made for a widget of the given kind, geometry and
/// style: one sketchy rectangle or ellipse with the normalized width and
/// height (the drawing shell anchors them at the normalized top-left
/// corner, so a box dragged in any direction renders identically), one
/// signed arrow request (the sign encodes the arrow's direction), and no
/// path at all for text (drawn directly) or the transient marquee (drawn as
/// an overlay).
pub open spec fn spec_widget_configs(
    kind: WidgetKind,
    rect: Rect,
    stroke: Seq<char>,
    fill: Seq<char>,
) -> Seq<PathConfigView> {
    let nw = spec_norm_width(rect) as i32;
    let nh = spec_norm_height(rect) as i32;
    let w = (rect.end_x - rect.start_x) as i32;
    let h = (rect.end_y - rect.start_y) as i32;
    match kind {
        WidgetKind::Rectangle => seq![
            PathConfigView::Rectangle { x: 0, y: 0, w: nw, h: nh, stroke, fill },
        ],
        WidgetKind::Ellipse => seq![
            PathConfigView::Ellipse {
                center_x: (nw as int / 2) as i32,
                center_y: (nh as int / 2) as i32,
                w: nw,
                h: nh,
                stroke,
                fill,
            },
        ],
        WidgetKind::Arrow => seq![PathConfigView::Arrow { w, h, stroke, fill }],
        WidgetKind::Text => Seq::<PathConfigView>::empty(),
        WidgetKind::Selection => Seq::<PathConfigView>::empty(),
    }
}

/// Half of a non-negative extent.
fn half(v: i32) -> (r: i32)
    requires
        v >= 0,
    ensures
        r as int == v as int / 2,
{
    ((v as u32) / 2) as i32
}

/// A rectangle widget: one sketchy rectangle of the normalized extent,
/// anchored at the drawing origin.
#[derive(Debug)]
pub struct Rectangle {
    pub rect: Rect,
    pub item_stroke_color: String,
    pub item_bg_color: String,
}

impl Rectangle {
    pub fn new(rect: Rect, item_stroke_color: String, item_bg_color: String) -> (r: Rectangle)
        ensures
            r == (Rectangle { rect, item_stroke_color, item_bg_color }),
    {
        Rectangle { rect, item_stroke_color, item_bg_color }
    }

    pub fn get_config(&self) -> (r: Vec<PathConfig>)
        requires
            spec_span_ok(self.rect),
        ensures
            r.deep_view() =~= spec_widget_configs(
                WidgetKind::Rectangle,
                self.rect,
                self.item_stroke_color@,
                self.item_bg_color@,
            ),
    {
        let f = crate::rect::fix_rect(&self.rect);
        let w = f.get_width();
        let h = f.get_height();
        let mut r: Vec<PathConfig> = Vec::new();
        r.push(PathConfig::Rectangle {
            x: 0,
            y: 0,
            w,
            h,
            stroke: self.item_stroke_color.clone(),
            fill: self.item_bg_color.clone(),
        });
        r
    }
}

/// An ellipse widget: one sketchy ellipse of the normalized extent,
/// centered in its box.
#[derive(Debug)]
pub struct Ellipse {
    pub rect: Rect,
    pub item_stroke_color: String,
    pub item_bg_color: String,
}

impl Ellipse {
    pub fn new(rect: Rect, item_stroke_color: String, item_bg_color: String) -> (r: Ellipse)
        ensures
            r == (Ellipse { rect, item_stroke_color, item_bg_color }),
    {
        Ellipse { rect, item_stroke_color, item_bg_color }
    }

    pub fn get_config(&self) -> (r: Vec<PathConfig>)
        requires
            spec_span_ok(self.rect),
        ensures
            r.deep_view() =~= spec_widget_configs(
                WidgetKind::Ellipse,
                self.rect,
                self.item_stroke_color@,
                self.item_bg_color@,
            ),
    {
        let f = crate::rect::fix_rect(&self.rect);
        let w = f.get_width();
        let h = f.get_height();
        let mut r: Vec<PathConfig> = Vec::new();
        r.push(PathConfig::Ellipse {
            center_x: half(w),
            center_y: half(h),
            w,
            h,
            stroke: self.item_stroke_color.clone(),
            fill: self.item_bg_color.clone(),
        });
        r
    }
}

/// An arrow widget: a shaft with two head strokes.  The head geometry
/// (shrink towards the tip, rotate by a fixed angle) is floating-point work
/// done by the drawing shell, so the request carries the signed extent only.
#[derive(Debug)]
pub struct Arrow {
    pub rect: Rect,
    pub item_stroke_color: String,
    pub item_bg_color: String,
}

impl Arrow {
    pub fn new(rect: Rect, item_stroke_color: String, item_bg_color: String) -> (r: Arrow)
        ensures
            r == (Arrow { rect, item_stroke_color, item_bg_color }),
    {
        Arrow { rect, item_stroke_color, item_bg_color }
    }

    pub fn get_config(&self) -> (r: Vec<PathConfig>)
        requires
            spec_span_ok(self.rect),
        ensures
            r.deep_view() =~= spec_widget_configs(
                WidgetKind::Arrow,
                self.rect,
                self.item_stroke_color@,
                self.item_bg_color@,
            ),
    {
        let w = self.rect.get_width();
        let h = self.rect.get_height();
        let mut r: Vec<PathConfig> = Vec::new();
        r.push(PathConfig::Arrow {
            w,
            h,
            stroke: self.item_stroke_color.clone(),
            fill: self.item_bg_color.clone(),
        });
        r
    }
}

/// The transient marquee widget: renders via the selection overlay, so it
/// has no path at all.
#[derive(Debug, Clone, Copy)]
pub struct Selection {}

impl Selection {
    pub fn new() -> (r: Selection)
        ensures
            r == (Selection {  }),
    {
        Selection {  }
    }

    pub fn get_config(&self) -> (r: Vec<PathConfig>)
        ensures
            r.deep_view() =~= Seq::<PathConfigView>::empty(),
    {
        Vec::new()
    }
}

/// The shape factory: the generator requests for one widget, by kind.  Text
/// produces no path (it is drawn directly), and the transient marquee
/// produces no path (it is drawn as an overlay); both are deliberate policy,
/// not errors.
pub fn create_widget(
    widget_type: WidgetKind,
    rect: Rect,
    item_stroke_color: String,
    item_bg_color: String,
) -> (r: Vec<PathConfig>)
    requires
        spec_span_ok(rect),
    ensures
        r.deep_view() =~= spec_widget_configs(
            widget_type,
            rect,
            item_stroke_color@,
            item_bg_color@,
        ),
{
    match widget_type {
        WidgetKind::Rectangle => Rectangle::new(rect, item_stroke_color, item_bg_color).get_config(),
        WidgetKind::Ellipse => Ellipse::new(rect, item_stroke_color, item_bg_color).get_config(),
        WidgetKind::Arrow => Arrow::new(rect, item_stroke_color, item_bg_color).get_config(),
        WidgetKind::Text => Vec::new(),
        WidgetKind::Selection => Selection::new().get_config(),
    }
}

} // verus!
