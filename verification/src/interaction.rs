//! The pointer interaction state machine.
//!
//! Pointer-down either starts drawing a new element (anchored at the
//! pointer) or, with the selection tool over an already-selected element,
//! starts dragging the selection.  Pointer-move grows the in-progress element or
//! translates the selection by incremental deltas.  Pointer-up strips the
//! transient marquee, finalizes selection state, and reverts the tool to
//! the selection tool.  The drawing shell feeds these functions plain
//! pointer coordinates and performs the redraws, path generation and
//! persistence that the outcomes call for.

use vstd::prelude::*;

use crate::element::{spec_can_move, spec_moved, ElementConfig, ElementView};
use crate::rect::Rect;
use crate::scene::{pred_has_id, pred_hit, pred_in_point, spec_clean, spec_first_where};
use crate::store::AppState;
use crate::widget::{spec_span_ok, spec_widget_configs, create_widget, PathConfig};
use crate::widget_kind::WidgetKind;

verus! {

/// The transient pointer state between pointer-down and pointer-up:
/// which element is being drawn and from which origin, and whether the
/// selection is being dragged and from which last pointer position.
#[derive(Debug, Clone, Copy, PartialEq, Eq, Structural)]
pub struct Session {
    /// The element being drawn, or 0 while none is.
    pub drawing_id: u64,
    pub origin_x: i32,
    pub origin_y: i32,
    pub dragging: bool,
    pub last_x: i32,
    pub last_y: i32,
}

impl Session {
    /// The idle session: nothing drawn, nothing dragged.
    pub fn new() -> (r: Session)
        ensures
            r == Session::spec_idle(),
    {
        Session { drawing_id: 0, origin_x: 0, origin_y: 0, dragging: false, last_x: 0, last_y: 0 }
    }

    /// The idle session value.
    pub open spec fn spec_idle() -> Session {
        Session { drawing_id: 0, origin_x: 0, origin_y: 0, dragging: false, last_x: 0, last_y: 0 }
    }
}

/// What a pointer-move did, and what the drawing shell must do next.
#[derive(Debug)]
pub enum MoveOutcome {
    /// Nothing happened; no redraw needed.
    Idle,
    /// The selection was dragged; redraw.
    Dragged,
    /// The element carrying `id` was resized; regenerate its path from
    /// `configs`, store it, and redraw.
    Drawing { id: u64, configs: Vec<PathConfig> },
}

/// All elements deselected, everything else unchanged.
pub open spec fn spec_deselect_all(s: Seq<ElementView>) -> Seq<ElementView> {
    Seq::new(s.len(), |j: int| ElementView { is_selected: false, ..s[j] })
}

/// The selection state after a single-element pick of `id`: that element
/// selected, the previous selection kept only when `add` is set.
pub open spec fn spec_select_one(s: Seq<ElementView>, id: u64, add: bool) -> Seq<ElementView> {
    Seq::new(
        s.len(),
        |j: int| ElementView { is_selected: s[j].id == id || (add && s[j].is_selected), ..s[j] },
    )
}

/// The selection flag of the first element carrying `id` set, or the
/// sequence unchanged when the identifier is absent.
pub open spec fn spec_set_selected_by_id(s: Seq<ElementView>, id: u64) -> Seq<ElementView> {
    match spec_first_where(s, pred_has_id(id)) {
        Some(i) => s.update(i, ElementView { is_selected: true, ..s[i] }),
        None => s,
    }
}

/// The selection state after a click at (x, y): pick-and-select the first
/// element hit, or deselect everything when nothing is hit.
pub open spec fn spec_click_select(s: Seq<ElementView>, x: int, y: int, add: bool) -> Seq<
    ElementView,
> {
    match spec_first_where(s, pred_hit(x, y)) {
        Some(i) => spec_select_one(s, s[i].id, add),
        None => spec_deselect_all(s),
    }
}

/// The view of the element that pointer-down creates: the active tool's
/// kind, a zero rectangle anchored nowhere yet, the ambient style, not
/// selected.
pub open spec fn spec_new_element(state: AppState) -> ElementView {
    ElementView {
        id: state.app_data.next_id,
        is_selected: false,
        kind: state.selected_kind,
        rect: Rect { start_x: 0, start_y: 0, end_x: 0, end_y: 0 },
        shape: Seq::<Seq<char>>::empty(),
        stroke_color: state.item_stroke_color@,
        bg_color: state.item_bg_color@,
    }
}

/// Pointer-down for every tool but the text tool (which prompts first, see
/// `text_pointer_down`): create a new element of the active tool's kind at
/// a zero-size rectangle anchored at the pointer.  With the selection tool
/// over an already-selected element, additionally arm dragging; with a
/// drawing tool, clear the prior selection (drawing a new shape deselects
/// everything else).
pub fn pointer_down(state: &mut AppState, session: &mut Session, x: i32, y: i32)
    requires
        old(state).app_data.wf(),
        old(state).app_data.next_id < u64::MAX,
        old(state).selected_kind != WidgetKind::Text,
    ensures
        final(state).app_data.wf(),
        final(state).app_data.next_id == old(state).app_data.next_id + 1,
        final(state).selected_kind == old(state).selected_kind,
        final(state).export_config == old(state).export_config,
        final(state).view_bg_color == old(state).view_bg_color,
        final(state).item_stroke_color == old(state).item_stroke_color,
        final(state).item_bg_color == old(state).item_bg_color,
        old(state).selected_kind == WidgetKind::Selection ==> final(state).app_data@ == old(
            state,
        ).app_data@.push(spec_new_element(*old(state))),
        old(state).selected_kind != WidgetKind::Selection ==> final(state).app_data@
            == spec_deselect_all(old(state).app_data@.push(spec_new_element(*old(state)))),
        final(session).drawing_id == old(state).app_data.next_id,
        final(session).origin_x == x,
        final(session).origin_y == y,
        ({
            let s1 = old(state).app_data@.push(spec_new_element(*old(state)));
            let armed = old(state).selected_kind == WidgetKind::Selection && match spec_first_where(
                s1,
                pred_in_point(x as int, y as int),
            ) {
                Some(i) => s1[i].is_selected,
                None => false,
            };
            if armed {
                final(session).dragging && final(session).last_x == x && final(session).last_y == y
            } else {
                final(session).dragging == old(session).dragging && final(session).last_x == old(
                    session,
                ).last_x && final(session).last_y == old(session).last_y
            }
        }),
{
    let config = ElementConfig::new(
        state.item_stroke_color.clone(),
        state.item_bg_color.clone(),
    );
    let id = state.app_data.create_element(state.selected_kind, config);
    if state.selected_kind == WidgetKind::Selection {
        match state.app_data.get_element_by_point(x, y) {
            Some(element) => {
                if element.is_selected() {
                    session.dragging = true;
                    session.last_x = x;
                    session.last_y = y;
                }
            },
            None => {},
        }
    } else {
        state.app_data.clean_selected_state();
        proof {
            assert(state.app_data@ =~= spec_deselect_all(
                old(state).app_data@.push(spec_new_element(*old(state))),
            ));
        }
    }
    session.drawing_id = id;
    session.origin_x = x;
    session.origin_y = y;
}

/// The text-tool flow: the shell prompts for the text and measures it, then
/// hands the anchor, the measured extent and the text here.  An empty text
/// (or a cancelled prompt) aborts without creating an element; otherwise a
/// text element is created at the measured rectangle, selected, with the
/// text as its single stored string.  The prior selection is kept.
pub fn text_pointer_down(state: &mut AppState, x: i32, y: i32, width: i32, height: i32, text: String)
    requires
        old(state).app_data.wf(),
        old(state).app_data.next_id < u64::MAX,
        i32::MIN <= x + width <= i32::MAX,
        i32::MIN <= y + height <= i32::MAX,
    ensures
        final(state).app_data.wf(),
        final(state).selected_kind == old(state).selected_kind,
        final(state).export_config == old(state).export_config,
        final(state).view_bg_color == old(state).view_bg_color,
        final(state).item_stroke_color == old(state).item_stroke_color,
        final(state).item_bg_color == old(state).item_bg_color,
        text@.len() == 0 ==> final(state).app_data == old(state).app_data,
        text@.len() > 0 ==> final(state).app_data@ == old(state).app_data@.push(ElementView {
            id: old(state).app_data.next_id,
            is_selected: true,
            kind: WidgetKind::Text,
            rect: Rect {
                start_x: x,
                start_y: y,
                end_x: (x + width) as i32,
                end_y: (y + height) as i32,
            },
            shape: seq![text@],
            stroke_color: old(state).item_stroke_color@,
            bg_color: old(state).item_bg_color@,
        }),
        text@.len() > 0 ==> final(state).app_data.next_id == old(state).app_data.next_id + 1,
        text@.len() == 0 ==> final(state).app_data.next_id == old(state).app_data.next_id,
{
    if text.as_str().is_empty() {
        return ;
    }
    let config = ElementConfig::new(
        state.item_stroke_color.clone(),
        state.item_bg_color.clone(),
    );
    let id = state.app_data.create_element(WidgetKind::Text, config);
    let ghost s1 = state.app_data@;
    state.app_data.update_element_rect(id, x, y, x + width, y + height);
    let ghost s2 = state.app_data@;
    let mut shape: Vec<String> = Vec::new();
    shape.push(text);
    proof {
        assert(shape.deep_view() =~= seq![shape@[0]@]);
    }
    state.app_data.update_element_shape(id, shape);
    let ghost s3 = state.app_data@;
    state.app_data.set_element_selected(id, true);
    proof {
        let n = old(state).app_data@.len() as int;
        assert(spec_first_where(s1, pred_has_id(id)) == Some(n)) by {
            crate::scene::lemma_first_where(s1, pred_has_id(id));
            match spec_first_where(s1, pred_has_id(id)) {
                Some(i) => {
                    if i < n {
                        assert(old(state).app_data@[i].id == id);
                    }
                },
                None => {
                    assert(pred_has_id(id)(s1[n]));
                },
            }
        }
        assert(s2[n].id == id);
        assert(forall|j: int| 0 <= j < n ==> #[trigger] s2[j] == s1[j]);
        assert(spec_first_where(s2, pred_has_id(id)) == Some(n)) by {
            crate::scene::lemma_first_where(s2, pred_has_id(id));
            match spec_first_where(s2, pred_has_id(id)) {
                Some(i) => {
                    if i < n {
                        assert(s1[i].id == id);
                    }
                },
                None => {
                    assert(pred_has_id(id)(s2[n]));
                },
            }
        }
        assert(s3[n].id == id);
        assert(forall|j: int| 0 <= j < n ==> #[trigger] s3[j] == s1[j]);
        assert(spec_first_where(s3, pred_has_id(id)) == Some(n)) by {
            crate::scene::lemma_first_where(s3, pred_has_id(id));
            match spec_first_where(s3, pred_has_id(id)) {
                Some(i) => {
                    if i < n {
                        assert(s1[i].id == id);
                    }
                },
                None => {
                    assert(pred_has_id(id)(s3[n]));
                },
            }
        }
        assert(final(state).app_data@ =~= old(state).app_data@.push(ElementView {
            id: old(state).app_data.next_id,
            is_selected: true,
            kind: WidgetKind::Text,
            rect: Rect {
                start_x: x,
                start_y: y,
                end_x: (x + width) as i32,
                end_y: (y + height) as i32,
            },
            shape: seq![text@],
            stroke_color: old(state).item_stroke_color@,
            bg_color: old(state).item_bg_color@,
        }));
    }
}


/// The selection state after recomputing the marquee selection: exactly the
/// elements fully inside `rect` are selected.
pub open spec fn spec_marquee(s: Seq<ElementView>, rect: Rect) -> Seq<ElementView> {
    Seq::new(
        s.len(),
        |j: int| ElementView {
            is_selected: crate::rect::spec_inside(s[j].rect, rect),
            ..s[j]
        },
    )
}

/// Marquee selection selects exactly the elements that lie fully inside
/// the marquee box: a partially overlapping element is not selected, and
/// nothing else about any element changes.
pub proof fn lemma_marquee_selection(s: Seq<ElementView>, rect: Rect, j: int)
    requires
        0 <= j < s.len(),
    ensures
        spec_marquee(s, rect)[j] == (ElementView {
            is_selected: crate::rect::spec_inside(s[j].rect, rect),
            ..s[j]
        }),
{
}

/// Pointer-move.  While dragging, translate the selection by the delta from
/// the last pointer position and remember the new position (incremental
/// deltas prevent drift); a delta that would push an element out of the
/// coordinate range is skipped.  While drawing, recompute the in-progress
/// element's rectangle from the fixed origin to the pointer, hand back the
/// regenerated path requests, and with the selection tool recompute the
/// marquee selection; a pointer so far from the origin that the rectangle's
/// extent leaves the coordinate range is ignored.  Otherwise nothing
/// happens.
pub fn pointer_move(state: &mut AppState, session: &mut Session, x: i32, y: i32) -> (outcome:
    MoveOutcome)
    requires
        old(state).app_data.wf(),
    ensures
        final(state).app_data.wf(),
        final(state).app_data.next_id == old(state).app_data.next_id,
        final(state).selected_kind == old(state).selected_kind,
        final(state).export_config == old(state).export_config,
        final(state).view_bg_color == old(state).view_bg_color,
        final(state).item_stroke_color == old(state).item_stroke_color,
        final(state).item_bg_color == old(state).item_bg_color,
        old(session).dragging ==> ({
            let dx = x as int - old(session).last_x as int;
            let dy = y as int - old(session).last_y as int;
            let movable = i32::MIN <= dx <= i32::MAX && i32::MIN <= dy <= i32::MAX && (forall|
                j: int,
            |
                0 <= j < old(state).app_data@.len() && old(state).app_data@[j].is_selected
                    ==> spec_can_move(#[trigger] old(state).app_data@[j], dx, dy));
            &&& outcome is Dragged
            &&& *final(session) == (Session { last_x: x, last_y: y, ..*old(session) })
            &&& final(state).app_data@.len() == old(state).app_data@.len()
            &&& forall|j: int|
                0 <= j < old(state).app_data@.len() ==> final(state).app_data@[j] == (if movable
                    && old(state).app_data@[j].is_selected {
                    spec_moved(old(state).app_data@[j], dx, dy)
                } else {
                    old(state).app_data@[j]
                })
        }),
        !old(session).dragging && old(session).drawing_id > 0 ==> ({
            let rect = Rect {
                start_x: old(session).origin_x,
                start_y: old(session).origin_y,
                end_x: x,
                end_y: y,
            };
            let found = spec_first_where(old(state).app_data@, pred_has_id(old(session).drawing_id));
            &&& *final(session) == *old(session)
            &&& (spec_span_ok(rect) ==> ({
                let s1 = match found {
                    Some(i) => old(state).app_data@.update(
                        i,
                        ElementView { rect, ..old(state).app_data@[i] },
                    ),
                    None => old(state).app_data@,
                };
                let s2 = if found is Some && old(state).selected_kind == WidgetKind::Selection {
                    spec_marquee(s1, rect)
                } else {
                    s1
                };
                &&& final(state).app_data@ == s2
                &&& outcome matches MoveOutcome::Drawing { id, configs } && id == old(
                    session,
                ).drawing_id && configs.deep_view() == spec_widget_configs(
                    old(state).selected_kind,
                    rect,
                    old(state).item_stroke_color@,
                    old(state).item_bg_color@,
                )
            }))
            &&& (!spec_span_ok(rect) ==> final(state).app_data@ == old(state).app_data@ && outcome
                is Idle)
        }),
        !old(session).dragging && old(session).drawing_id == 0 ==> final(state).app_data@ == old(
            state,
        ).app_data@ && *final(session) == *old(session) && outcome is Idle,
{
    if session.dragging {
        let dx64 = x as i64 - session.last_x as i64;
        let dy64 = y as i64 - session.last_y as i64;
        if i32::MIN as i64 <= dx64 && dx64 <= i32::MAX as i64 && i32::MIN as i64 <= dy64 && dy64
            <= i32::MAX as i64 {
            let offset_x = dx64 as i32;
            let offset_y = dy64 as i32;
            if state.app_data.can_move_selected(offset_x, offset_y) {
                state.app_data.move_selected_elements(offset_x, offset_y);
            }
        }
        session.last_x = x;
        session.last_y = y;
        return MoveOutcome::Dragged;
    }
    if session.drawing_id > 0 {
        let sx64 = x as i64 - session.origin_x as i64;
        let sy64 = y as i64 - session.origin_y as i64;
        if !(-(i32::MAX as i64) <= sx64 && sx64 <= i32::MAX as i64 && -(i32::MAX as i64) <= sy64
            && sy64 <= i32::MAX as i64) {
            return MoveOutcome::Idle;
        }
        let rect = Rect::new(session.origin_x, session.origin_y, x, y);
        let configs = create_widget(
            state.selected_kind,
            rect,
            state.item_stroke_color.clone(),
            state.item_bg_color.clone(),
        );
        let found = state.app_data.get_element(session.drawing_id).is_some();
        if found {
            state.app_data.update_element_rect(
                session.drawing_id,
                session.origin_x,
                session.origin_y,
                x,
                y,
            );
            if state.selected_kind == WidgetKind::Selection {
                let ghost s1 = state.app_data@;
                state.app_data.select_elements(rect);
                proof {
                    assert(state.app_data@ =~= spec_marquee(s1, rect));
                }
            }
        }
        return MoveOutcome::Drawing { id: session.drawing_id, configs };
    }
    MoveOutcome::Idle
}

/// Pointer-up.  Strip the transient marquee elements; if a drawing tool was
/// active, make the newly drawn element the only selection; if the
/// selection tool was active and the pointer never moved (a click, not a
/// marquee drag), pick-and-select the element under the pointer (additively
/// when the modifier is held) or deselect everything when nothing is hit.
/// Reset the session and revert the active tool to the selection tool
/// (tools are single-use per shape).
pub fn pointer_up(state: &mut AppState, session: &mut Session, x: i32, y: i32, additive: bool)
    requires
        old(state).app_data.wf(),
    ensures
        final(state).app_data.wf(),
        final(state).app_data.next_id == old(state).app_data.next_id,
        final(state).selected_kind == WidgetKind::Selection,
        final(state).export_config == old(state).export_config,
        final(state).view_bg_color == old(state).view_bg_color,
        final(state).item_stroke_color == old(state).item_stroke_color,
        final(state).item_bg_color == old(state).item_bg_color,
        *final(session) == Session::spec_idle(),
        ({
            let s1 = spec_clean(old(state).app_data@);
            let s2 = if old(state).selected_kind != WidgetKind::Selection {
                spec_set_selected_by_id(spec_deselect_all(s1), old(session).drawing_id)
            } else {
                s1
            };
            let clicked = old(session).origin_x == x && old(session).origin_y == y && old(
                state,
            ).selected_kind == WidgetKind::Selection;
            let s3 = if clicked {
                spec_click_select(s2, x as int, y as int, additive)
            } else {
                s2
            };
            final(state).app_data@ == s3
        }),
{
    state.app_data.clean();
    let has_dragged = session.origin_x != x || session.origin_y != y;
    if state.selected_kind != WidgetKind::Selection {
        let ghost s1 = state.app_data@;
        state.app_data.clean_selected_state();
        proof {
            assert(state.app_data@ =~= spec_deselect_all(s1));
        }
        state.app_data.set_element_selected(session.drawing_id, true);
    }
    if !has_dragged && state.selected_kind == WidgetKind::Selection {
        let ghost s2 = state.app_data@;
        let hit_id = match state.app_data.get_element_by_hit(x, y) {
            Some(element) => Some(element.id),
            None => None,
        };
        match hit_id {
            Some(id) => {
                state.app_data.select_element(id, additive);
                proof {
                    let i = spec_first_where(s2, pred_hit(x as int, y as int))->Some_0;
                    assert(state.app_data@ =~= spec_select_one(s2, s2[i].id, additive));
                }
            },
            None => {
                state.app_data.clean_selected_state();
                proof {
                    assert(state.app_data@ =~= spec_deselect_all(s2));
                }
            },
        }
    }
    state.set_selected_kind_default();
    *session = Session::new();
}

} // verus!
