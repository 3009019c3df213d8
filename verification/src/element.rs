//! Scene elements: a drawn object with an identifier, kind, geometry, style,
//! cached path descriptions and a selection flag.

use vstd::prelude::*;

use crate::rect::{spec_translate, Rect};
use crate::widget_kind::WidgetKind;

verus! {

/// The style captured for an element when it is created: stroke and fill
/// color, immutable afterwards.
#[derive(Debug)]
pub struct ElementConfig {
    pub item_stroke_color: String,
    pub item_bg_color: String,
}

impl ElementConfig {
    pub fn new(item_stroke_color: String, item_bg_color: String) -> (r: Self)
        ensures
            r == (ElementConfig { item_stroke_color, item_bg_color }),
    {
        Self { item_stroke_color, item_bg_color }
    }

    /// A copy with the same colors.
    pub fn duplicate(&self) -> (r: Self)
        ensures
            r == *self,
    {
        Self {
            item_stroke_color: self.item_stroke_color.clone(),
            item_bg_color: self.item_bg_color.clone(),
        }
    }
}

/// The mathematical value of an element: every field a plain value or a
/// sequence, so that two elements with the same content have equal views.
#[verifier::ext_equal]
pub struct ElementView {
    pub id: u64,
    pub is_selected: bool,
    pub kind: WidgetKind,
    pub rect: Rect,
    pub shape: Seq<Seq<char>>,
    pub stroke_color: Seq<char>,
    pub bg_color: Seq<char>,
}

/// A drawn object owned by the scene.  `shape_string` caches the opaque path
/// descriptions returned by the sketchy path generator; the library only
/// stores and replays them, never inspects them.
#[derive(Debug)]
pub struct Element {
    pub id: u64,
    pub is_selected: bool,
    pub kind: WidgetKind,
    pub rect: Rect,
    pub shape_string: Vec<String>,
    pub config: ElementConfig,
}

impl View for Element {
    type V = ElementView;

    open spec fn view(&self) -> ElementView {
        ElementView {
            id: self.id,
            is_selected: self.is_selected,
            kind: self.kind,
            rect: self.rect,
            shape: self.shape_string.deep_view(),
            stroke_color: self.config.item_stroke_color@,
            bg_color: self.config.item_bg_color@,
        }
    }
}

impl DeepView for Element {
    type V = ElementView;

    open spec fn deep_view(&self) -> ElementView {
        self.view()
    }
}

/// The view of an element translated by (dx, dy).
pub open spec fn spec_moved(v: ElementView, dx: int, dy: int) -> ElementView {
    ElementView { rect: spec_translate(v.rect, dx, dy), ..v }
}

/// Whether translating `v.rect` by (dx, dy) stays within coordinate range.
pub open spec fn spec_can_move(v: ElementView, dx: int, dy: int) -> bool {
    crate::rect::spec_can_translate(v.rect, dx, dy)
}

impl Element {
    /// A fresh element: zero rectangle, no path, unselected.  The scene mints
    /// the identifier from its monotonic counter.
    pub fn new(id: u64, kind: WidgetKind, config: ElementConfig) -> (r: Self)
        ensures
            r@ == (ElementView {
                id,
                is_selected: false,
                kind,
                rect: Rect { start_x: 0, start_y: 0, end_x: 0, end_y: 0 },
                shape: Seq::<Seq<char>>::empty(),
                stroke_color: config.item_stroke_color@,
                bg_color: config.item_bg_color@,
            }),
            r.config == config,
    {
        let r = Self {
            id,
            is_selected: false,
            kind,
            rect: Rect::default(),
            shape_string: Vec::new(),
            config,
        };
        proof {
            assert(r.shape_string.deep_view() =~= Seq::<Seq<char>>::empty());
        }
        r
    }

    pub fn update_rect(&mut self, x1: i32, y1: i32, x2: i32, y2: i32)
        ensures
            final(self)@ == (ElementView {
                rect: Rect { start_x: x1, start_y: y1, end_x: x2, end_y: y2 },
                ..old(self)@
            }),
    {
        self.rect = Rect::new(x1, y1, x2, y2);
    }

    pub fn update_shape_string(&mut self, shape_string: Vec<String>)
        ensures
            final(self)@ == (ElementView { shape: shape_string.deep_view(), ..old(self)@ }),
    {
        self.shape_string = shape_string;
    }

    pub fn set_selected(&mut self, is_selected: bool)
        ensures
            final(self)@ == (ElementView { is_selected, ..old(self)@ }),
    {
        self.is_selected = is_selected;
    }

    pub fn is_selected(&self) -> (r: bool)
        ensures
            r == self.is_selected,
    {
        self.is_selected
    }

    /// Shift both corners of the element's rectangle by the same offset,
    /// preserving width and height exactly.
    pub fn move_element(&mut self, x: i32, y: i32)
        requires
            spec_can_move(old(self)@, x as int, y as int),
        ensures
            final(self)@ == spec_moved(old(self)@, x as int, y as int),
    {
        self.rect = Rect::new(
            self.rect.start_x + x,
            self.rect.start_y + y,
            self.rect.end_x + x,
            self.rect.end_y + y,
        );
    }

    /// Whether `move_element(x, y)` would stay within coordinate range.
    pub fn can_move(&self, x: i32, y: i32) -> (r: bool)
        ensures
            r == spec_can_move(self@, x as int, y as int),
    {
        let r = &self.rect;
        let x_ok = if x >= 0 {
            r.start_x <= i32::MAX - x && r.end_x <= i32::MAX - x
        } else {
            r.start_x >= i32::MIN - x && r.end_x >= i32::MIN - x
        };
        let y_ok = if y >= 0 {
            r.start_y <= i32::MAX - y && r.end_y <= i32::MAX - y
        } else {
            r.start_y >= i32::MIN - y && r.end_y >= i32::MIN - y
        };
        x_ok && y_ok
    }

    /// A copy of `element` under a freshly minted identifier: identical
    /// geometry, style, path and selection state.  Used for paste.
    pub fn from(element: &Element, id: u64) -> (r: Self)
        ensures
            r@ == (ElementView { id, ..element@ }),
    {
        let shape_string = element.shape_string.clone();
        proof {
            assert forall|i: int| 0 <= i < shape_string@.len() implies #[trigger] shape_string@[i]@
                == element.shape_string@[i]@ by {
                assert(cloned::<String>(element.shape_string[i], shape_string[i]));
            }
            assert(shape_string.deep_view() =~= element.shape_string.deep_view());
        }
        Self {
            id,
            is_selected: element.is_selected,
            kind: element.kind,
            rect: element.rect,
            shape_string,
            config: element.config.duplicate(),
        }
    }
}

/// Translating an element by (dx, dy) and then by (-dx, -dy) restores its
/// original rectangle, and with it the whole element, exactly.
pub proof fn lemma_move_round_trip(v: ElementView, dx: int, dy: int)
    requires
        spec_can_move(v, dx, dy),
    ensures
        spec_moved(spec_moved(v, dx, dy), -dx, -dy) == v,
{
    assert(spec_moved(spec_moved(v, dx, dy), -dx, -dy) =~= v);
}

} // verus!
