//! The scene: an ordered collection of elements, with creation, lookup,
//! selection, movement and deletion.
//!
//! Order is append-only except for deletions and has no meaning beyond paint
//! order (later elements draw on top).  The scene owns a monotonic counter
//! from which element identifiers are minted, so identifiers are unique and
//! never reused within the scene's lifetime.

use vstd::prelude::*;
use vstd::seq_lib::*;

use crate::element::{spec_can_move, spec_moved, Element, ElementConfig, ElementView};
use crate::hit_test::{hit_test, spec_hit_test};
use crate::rect::{spec_in_point, spec_inside, Rect};
use crate::widget_kind::WidgetKind;

verus! {

/// The scene with all elements the user has drawn.
#[derive(Debug)]
pub struct AppData {
    pub elements: Vec<Element>,
    /// The next identifier to mint; always larger than every identifier in
    /// the scene.
    pub next_id: u64,
}

impl View for AppData {
    type V = Seq<ElementView>;

    open spec fn view(&self) -> Seq<ElementView> {
        self.elements.deep_view()
    }
}

/// The predicate "is not selected".
pub open spec fn pred_not_selected() -> spec_fn(ElementView) -> bool {
    |e: ElementView| !e.is_selected
}

/// The predicate "is selected".
pub open spec fn pred_selected() -> spec_fn(ElementView) -> bool {
    |e: ElementView| e.is_selected
}

/// The predicate "is not a transient marquee element".
pub open spec fn pred_not_marquee() -> spec_fn(ElementView) -> bool {
    |e: ElementView| e.kind != WidgetKind::Selection
}

/// The elements that survive deleting the selection.
pub open spec fn spec_remove_selected(s: Seq<ElementView>) -> Seq<ElementView> {
    s.filter(pred_not_selected())
}

/// The elements that survive stripping the transient marquee elements.
pub open spec fn spec_clean(s: Seq<ElementView>) -> Seq<ElementView> {
    s.filter(pred_not_marquee())
}

/// The selected elements, in scene order.
pub open spec fn spec_selected(s: Seq<ElementView>) -> Seq<ElementView> {
    s.filter(pred_selected())
}

/// Whether some element in `s` carries the identifier `id`.
pub open spec fn spec_has_id(s: Seq<ElementView>, id: u64) -> bool {
    exists|i: int| 0 <= i < s.len() && #[trigger] s[i].id == id
}

/// The predicate "carries identifier `id`".
pub open spec fn pred_has_id(id: u64) -> spec_fn(ElementView) -> bool {
    |v: ElementView| v.id == id
}

/// The predicate "the point (x, y) is strictly inside the bounding box".
pub open spec fn pred_in_point(x: int, y: int) -> spec_fn(ElementView) -> bool {
    |v: ElementView| spec_in_point(v.rect, x, y)
}

/// The predicate "the point (x, y) hits the element" (outline hit policy).
pub open spec fn pred_hit(x: int, y: int) -> spec_fn(ElementView) -> bool {
    |v: ElementView| spec_hit_test(v, x, y)
}

/// The index of the first element satisfying `pred`, or `None`.
pub open spec fn spec_first_where(s: Seq<ElementView>, pred: spec_fn(ElementView) -> bool) -> Option<
    int,
>
    decreases s.len(),
{
    if s.len() == 0 {
        None
    } else if pred(s[0]) {
        Some(0int)
    } else {
        match spec_first_where(s.drop_first(), pred) {
            Some(i) => Some(i + 1),
            None => None,
        }
    }
}

/// What `spec_first_where` returns: the first index whose element satisfies
/// `pred`, and `None` exactly when no element does.
pub proof fn lemma_first_where(s: Seq<ElementView>, pred: spec_fn(ElementView) -> bool)
    ensures
        match spec_first_where(s, pred) {
            Some(i) => 0 <= i < s.len() && pred(s[i]) && forall|j: int|
                0 <= j < i ==> !pred(#[trigger] s[j]),
            None => forall|j: int| 0 <= j < s.len() ==> !pred(#[trigger] s[j]),
        },
    decreases s.len(),
{
    if s.len() > 0 && !pred(s[0]) {
        let t = s.drop_first();
        lemma_first_where(t, pred);
        assert(forall|j: int| 0 <= j < t.len() ==> #[trigger] t[j] == s[j + 1]);
        match spec_first_where(t, pred) {
            Some(i) => {
                assert(t[i] == s[i + 1]);
                assert forall|j: int| 0 <= j < i + 1 implies !pred(s[j]) by {
                    if j > 0 {
                        assert(t[j - 1] == s[j]);
                        assert(!pred(t[j - 1]));
                    }
                }
            },
            None => {
                assert forall|j: int| 0 <= j < s.len() implies !pred(s[j]) by {
                    if j > 0 {
                        assert(t[j - 1] == s[j]);
                        assert(!pred(t[j - 1]));
                    }
                }
            },
        }
    }
}

impl AppData {
    /// The scene invariant: the counter is ahead of every identifier in the
    /// scene, identifiers are nonzero and pairwise distinct.
    pub open spec fn wf(&self) -> bool {
        &&& 1 <= self.next_id
        &&& forall|i: int| 0 <= i < self@.len() ==> 1 <= #[trigger] self@[i].id < self.next_id
        &&& forall|i: int, j: int|
            #![trigger self@[i].id, self@[j].id]
            0 <= i < j < self@.len() ==> self@[i].id != self@[j].id
    }

    /// An empty scene.
    pub fn new() -> (r: AppData)
        ensures
            r@ =~= Seq::<ElementView>::empty(),
            r.next_id == 1,
            r.wf(),
    {
        AppData { elements: Vec::new(), next_id: 1 }
    }

    /// Append an element whose identifier was minted from this scene's
    /// counter (fresh identifiers keep the scene invariant).
    pub fn add_element(&mut self, element: Element)
        requires
            old(self).wf(),
            1 <= element.id < old(self).next_id,
            !spec_has_id(old(self)@, element.id),
        ensures
            final(self)@ == old(self)@.push(element@),
            final(self).next_id == old(self).next_id,
            final(self).wf(),
    {
        self.elements.push(element);
        proof {
            assert(self@ =~= old(self)@.push(element@));
        }
    }

    /// Mint a fresh identifier: returns the counter and advances it.
    fn mint_id(&mut self) -> (id: u64)
        requires
            old(self).next_id < u64::MAX,
        ensures
            id == old(self).next_id,
            final(self).next_id == old(self).next_id + 1,
            final(self)@ == old(self)@,
    {
        let id = self.next_id;
        self.next_id = self.next_id + 1;
        id
    }

    /// Append a fresh element of the given kind and style: zero rectangle,
    /// no path, unselected.  Returns its identifier for the caller to mutate
    /// during the drag.
    pub fn create_element(&mut self, kind: WidgetKind, config: ElementConfig) -> (id: u64)
        requires
            old(self).wf(),
            old(self).next_id < u64::MAX,
        ensures
            id == old(self).next_id,
            final(self).next_id == old(self).next_id + 1,
            final(self)@ == old(self)@.push(ElementView {
                id,
                is_selected: false,
                kind,
                rect: Rect { start_x: 0, start_y: 0, end_x: 0, end_y: 0 },
                shape: Seq::<Seq<char>>::empty(),
                stroke_color: config.item_stroke_color@,
                bg_color: config.item_bg_color@,
            }),
            final(self).wf(),
            !spec_has_id(old(self)@, id),
    {
        let id = self.mint_id();
        let element = Element::new(id, kind, config);
        self.elements.push(element);
        proof {
            assert(self@ =~= old(self)@.push(element@));
        }
        id
    }

    /// The first element carrying `id`, or `None` if the identifier is not in
    /// the scene (a lookup racing with a deletion is a no-op, never an error).
    pub fn get_element(&self, id: u64) -> (r: Option<&Element>)
        ensures
            match r {
                Some(e) => spec_first_where(self@, pred_has_id(id)) matches Some(i) && e@
                    == self@[i],
                None => spec_first_where(self@, pred_has_id(id)) is None,
            },
    {
        let n = self.elements.len();
        let mut i: usize = 0;
        while i < n
            invariant
                n == self.elements.len(),
                0 <= i <= n,
                forall|j: int| 0 <= j < i ==> #[trigger] self@[j].id != id,
            decreases n - i,
        {
            if self.elements[i].id == id {
                proof {
                    assert(self@[i as int] == self.elements@[i as int]@);
                    lemma_first_where(self@, pred_has_id(id));
                    assert(pred_has_id(id)(self@[i as int]));
                }
                return Some(&self.elements[i]);
            }
            i = i + 1;
        }
        proof {
            lemma_first_where(self@, pred_has_id(id));
        }
        None
    }

    /// The first element (bottom-most in paint order) whose bounding box
    /// strictly contains the point, or `None`.  Used on pointer-down to
    /// detect the start of a drag.
    pub fn get_element_by_point(&self, x: i32, y: i32) -> (r: Option<&Element>)
        ensures
            match r {
                Some(e) => spec_first_where(self@, pred_in_point(x as int, y as int))
                    matches Some(i) && e@ == self@[i],
                None => spec_first_where(self@, pred_in_point(x as int, y as int)) is None,
            },
    {
        let n = self.elements.len();
        let mut i: usize = 0;
        while i < n
            invariant
                n == self.elements.len(),
                0 <= i <= n,
                forall|j: int|
                    0 <= j < i ==> !spec_in_point(#[trigger] self@[j].rect, x as int, y as int),
            decreases n - i,
        {
            if self.elements[i].rect.is_in_point(x, y) {
                proof {
                    assert(self@[i as int] == self.elements@[i as int]@);
                    lemma_first_where(self@, pred_in_point(x as int, y as int));
                }
                return Some(&self.elements[i]);
            }
            i = i + 1;
        }
        proof {
            lemma_first_where(self@, pred_in_point(x as int, y as int));
        }
        None
    }

    /// The first element that the point hits under the outline hit policy,
    /// or `None`.  Used on pointer-up to pick the element of a single click.
    pub fn get_element_by_hit(&self, x: i32, y: i32) -> (r: Option<&Element>)
        ensures
            match r {
                Some(e) => spec_first_where(self@, pred_hit(x as int, y as int)) matches Some(i)
                    && e@ == self@[i],
                None => spec_first_where(self@, pred_hit(x as int, y as int)) is None,
            },
    {
        let n = self.elements.len();
        let mut i: usize = 0;
        while i < n
            invariant
                n == self.elements.len(),
                0 <= i <= n,
                forall|j: int| 0 <= j < i ==> !spec_hit_test(#[trigger] self@[j], x as int, y as int),
            decreases n - i,
        {
            if hit_test(&self.elements[i], x, y) {
                proof {
                    assert(self@[i as int] == self.elements@[i as int]@);
                    lemma_first_where(self@, pred_hit(x as int, y as int));
                }
                return Some(&self.elements[i]);
            }
            i = i + 1;
        }
        proof {
            lemma_first_where(self@, pred_hit(x as int, y as int));
        }
        None
    }

    /// Marquee selection: select exactly the elements whose rectangle lies
    /// fully inside `rect`; partial overlap does not select.
    pub fn select_elements(&mut self, rect: Rect)
        ensures
            final(self)@.len() == old(self)@.len(),
            forall|j: int|
                0 <= j < old(self)@.len() ==> final(self)@[j] == (ElementView {
                    is_selected: spec_inside(old(self)@[j].rect, rect),
                    ..old(self)@[j]
                }),
            final(self).next_id == old(self).next_id,
            old(self).wf() ==> final(self).wf(),
    {
        let ghost orig = self@;
        let n = self.elements.len();
        let mut i: usize = 0;
        while i < n
            invariant
                n == self.elements.len(),
                self@.len() == orig.len() == n,
                0 <= i <= n,
                self.next_id == old(self).next_id,
                forall|j: int|
                    0 <= j < i ==> #[trigger] self@[j] == (ElementView {
                        is_selected: spec_inside(orig[j].rect, rect),
                        ..orig[j]
                    }),
                forall|j: int| i <= j < n ==> #[trigger] self@[j] == orig[j],
            decreases n - i,
        {
            let ghost prev = self@;
            let sel = self.elements[i].rect.is_inside(rect);
            self.elements[i].set_selected(sel);
            proof {
                assert(self@ =~= prev.update(
                    i as int,
                    (ElementView { is_selected: sel, ..prev[i as int] }),
                ));
            }
            i = i + 1;
        }
    }

    /// Single-element selection: select the element carrying `id`; if `add`
    /// is set, keep the previous selection as well, otherwise deselect
    /// everything else.
    pub fn select_element(&mut self, id: u64, add: bool)
        ensures
            final(self)@.len() == old(self)@.len(),
            forall|j: int|
                0 <= j < old(self)@.len() ==> final(self)@[j] == (ElementView {
                    is_selected: old(self)@[j].id == id || (add && old(self)@[j].is_selected),
                    ..old(self)@[j]
                }),
            final(self).next_id == old(self).next_id,
            old(self).wf() ==> final(self).wf(),
    {
        let ghost orig = self@;
        let n = self.elements.len();
        let mut i: usize = 0;
        while i < n
            invariant
                n == self.elements.len(),
                self@.len() == orig.len() == n,
                0 <= i <= n,
                self.next_id == old(self).next_id,
                forall|j: int|
                    0 <= j < i ==> #[trigger] self@[j] == (ElementView {
                        is_selected: orig[j].id == id || (add && orig[j].is_selected),
                        ..orig[j]
                    }),
                forall|j: int| i <= j < n ==> #[trigger] self@[j] == orig[j],
            decreases n - i,
        {
            let need_select: bool = if add {
                self.elements[i].id == id || self.elements[i].is_selected
            } else {
                self.elements[i].id == id
            };
            let ghost prev = self@;
            self.elements[i].set_selected(need_select);
            proof {
                assert(self@ =~= prev.update(
                    i as int,
                    (ElementView { is_selected: need_select, ..prev[i as int] }),
                ));
            }
            i = i + 1;
        }
    }

    /// Deselect every element (e.g. after loading a persisted scene).
    pub fn clean_selected_state(&mut self)
        ensures
            final(self)@.len() == old(self)@.len(),
            forall|j: int|
                0 <= j < old(self)@.len() ==> final(self)@[j] == (ElementView {
                    is_selected: false,
                    ..old(self)@[j]
                }),
            final(self).next_id == old(self).next_id,
            old(self).wf() ==> final(self).wf(),
    {
        let ghost orig = self@;
        let n = self.elements.len();
        let mut i: usize = 0;
        while i < n
            invariant
                n == self.elements.len(),
                self@.len() == orig.len() == n,
                0 <= i <= n,
                self.next_id == old(self).next_id,
                forall|j: int|
                    0 <= j < i ==> #[trigger] self@[j] == (ElementView {
                        is_selected: false,
                        ..orig[j]
                    }),
                forall|j: int| i <= j < n ==> #[trigger] self@[j] == orig[j],
            decreases n - i,
        {
            let ghost prev = self@;
            self.elements[i].set_selected(false);
            proof {
                assert(self@ =~= prev.update(
                    i as int,
                    (ElementView { is_selected: false, ..prev[i as int] }),
                ));
            }
            i = i + 1;
        }
    }

    /// Select every element.
    pub fn select_all_elements(&mut self)
        ensures
            final(self)@.len() == old(self)@.len(),
            forall|j: int|
                0 <= j < old(self)@.len() ==> final(self)@[j] == (ElementView {
                    is_selected: true,
                    ..old(self)@[j]
                }),
            final(self).next_id == old(self).next_id,
            old(self).wf() ==> final(self).wf(),
    {
        let ghost orig = self@;
        let n = self.elements.len();
        let mut i: usize = 0;
        while i < n
            invariant
                n == self.elements.len(),
                self@.len() == orig.len() == n,
                0 <= i <= n,
                self.next_id == old(self).next_id,
                forall|j: int|
                    0 <= j < i ==> #[trigger] self@[j] == (ElementView {
                        is_selected: true,
                        ..orig[j]
                    }),
                forall|j: int| i <= j < n ==> #[trigger] self@[j] == orig[j],
            decreases n - i,
        {
            let ghost prev = self@;
            self.elements[i].set_selected(true);
            proof {
                assert(self@ =~= prev.update(
                    i as int,
                    (ElementView { is_selected: true, ..prev[i as int] }),
                ));
            }
            i = i + 1;
        }
    }

    /// Replace the rectangle of the first element carrying `id`; a no-op if
    /// the identifier is not in the scene.
    pub fn update_element_rect(&mut self, id: u64, x1: i32, y1: i32, x2: i32, y2: i32)
        ensures
            match spec_first_where(old(self)@, pred_has_id(id)) {
                Some(i) => final(self)@ == old(self)@.update(
                    i,
                    (ElementView {
                        rect: Rect { start_x: x1, start_y: y1, end_x: x2, end_y: y2 },
                        ..old(self)@[i]
                    }),
                ),
                None => final(self)@ == old(self)@,
            },
            final(self).next_id == old(self).next_id,
            old(self).wf() ==> final(self).wf(),
    {
        let n = self.elements.len();
        let mut i: usize = 0;
        while i < n
            invariant
                n == self.elements.len(),
                0 <= i <= n,
                self == old(self),
                forall|j: int| 0 <= j < i ==> #[trigger] self@[j].id != id,
            decreases n - i,
        {
            if self.elements[i].id == id {
                proof {
                    assert(self@[i as int] == self.elements@[i as int]@);
                    lemma_first_where(self@, pred_has_id(id));
                }
                self.elements[i].update_rect(x1, y1, x2, y2);
                proof {
                    assert(self@ =~= old(self)@.update(
                        i as int,
                        (ElementView {
                            rect: Rect { start_x: x1, start_y: y1, end_x: x2, end_y: y2 },
                            ..old(self)@[i as int]
                        }),
                    ));
                }
                return ;
            }
            i = i + 1;
        }
        proof {
            lemma_first_where(self@, pred_has_id(id));
        }
    }

    /// Replace the cached path descriptions of the first element carrying
    /// `id`; a no-op if the identifier is not in the scene.
    pub fn update_element_shape(&mut self, id: u64, shape_string: Vec<String>)
        ensures
            match spec_first_where(old(self)@, pred_has_id(id)) {
                Some(i) => final(self)@ == old(self)@.update(
                    i,
                    (ElementView { shape: shape_string.deep_view(), ..old(self)@[i] }),
                ),
                None => final(self)@ == old(self)@,
            },
            final(self).next_id == old(self).next_id,
            old(self).wf() ==> final(self).wf(),
    {
        let n = self.elements.len();
        let mut i: usize = 0;
        while i < n
            invariant
                n == self.elements.len(),
                0 <= i <= n,
                self == old(self),
                forall|j: int| 0 <= j < i ==> #[trigger] self@[j].id != id,
            decreases n - i,
        {
            if self.elements[i].id == id {
                proof {
                    assert(self@[i as int] == self.elements@[i as int]@);
                    lemma_first_where(self@, pred_has_id(id));
                }
                self.elements[i].update_shape_string(shape_string);
                proof {
                    assert(self@ =~= old(self)@.update(
                        i as int,
                        (ElementView { shape: shape_string.deep_view(), ..old(self)@[i as int] }),
                    ));
                }
                return ;
            }
            i = i + 1;
        }
        proof {
            lemma_first_where(self@, pred_has_id(id));
        }
    }

    /// Set the selection flag of the first element carrying `id`; a no-op if
    /// the identifier is not in the scene.
    pub fn set_element_selected(&mut self, id: u64, is_selected: bool)
        ensures
            match spec_first_where(old(self)@, pred_has_id(id)) {
                Some(i) => final(self)@ == old(self)@.update(
                    i,
                    (ElementView { is_selected, ..old(self)@[i] }),
                ),
                None => final(self)@ == old(self)@,
            },
            final(self).next_id == old(self).next_id,
            old(self).wf() ==> final(self).wf(),
    {
        let n = self.elements.len();
        let mut i: usize = 0;
        while i < n
            invariant
                n == self.elements.len(),
                0 <= i <= n,
                self == old(self),
                forall|j: int| 0 <= j < i ==> #[trigger] self@[j].id != id,
            decreases n - i,
        {
            if self.elements[i].id == id {
                proof {
                    assert(self@[i as int] == self.elements@[i as int]@);
                    lemma_first_where(self@, pred_has_id(id));
                }
                self.elements[i].set_selected(is_selected);
                proof {
                    assert(self@ =~= old(self)@.update(
                        i as int,
                        (ElementView { is_selected, ..old(self)@[i as int] }),
                    ));
                }
                return ;
            }
            i = i + 1;
        }
        proof {
            lemma_first_where(self@, pred_has_id(id));
        }
    }
}


/// Filtering keeps identifier bounds, pairwise-distinct identifiers, and
/// only elements that occur in the original sequence.
proof fn lemma_filter_ids(s: Seq<ElementView>, pred: spec_fn(ElementView) -> bool, bound: u64)
    requires
        forall|i: int| 0 <= i < s.len() ==> 1 <= #[trigger] s[i].id < bound,
        forall|i: int, j: int|
            #![trigger s[i].id, s[j].id]
            0 <= i < j < s.len() ==> s[i].id != s[j].id,
    ensures
        forall|k: int|
            0 <= k < s.filter(pred).len() ==> 1 <= #[trigger] s.filter(pred)[k].id < bound,
        forall|k: int, l: int|
            #![trigger s.filter(pred)[k].id, s.filter(pred)[l].id]
            0 <= k < l < s.filter(pred).len() ==> s.filter(pred)[k].id != s.filter(pred)[l].id,
        forall|k: int|
            0 <= k < s.filter(pred).len() ==> exists|j: int|
                0 <= j < s.len() && s[j] == #[trigger] s.filter(pred)[k],
    decreases s.len(),
{
    reveal(Seq::filter);
    if s.len() > 0 {
        let d = s.drop_last();
        lemma_filter_ids(d, pred, bound);
        assert(forall|j: int| 0 <= j < d.len() ==> #[trigger] d[j] == s[j]);
        let f = s.filter(pred);
        let fd = d.filter(pred);
        assert forall|k: int| 0 <= k < f.len() implies exists|j: int|
            0 <= j < s.len() && s[j] == #[trigger] f[k] by {
            if k < fd.len() {
                let j = choose|j: int| 0 <= j < d.len() && d[j] == fd[k];
                assert(s[j] == f[k]);
            } else {
                assert(f[k] == s[s.len() - 1]);
            }
        }
        assert forall|k: int, l: int|
            #![trigger f[k].id, f[l].id]
            0 <= k < l < f.len() implies f[k].id != f[l].id by {
            if l < fd.len() {
                assert(fd[k].id != fd[l].id);
            } else {
                // l picks the last element of s; k picks something from d.
                assert(f[l] == s[s.len() - 1]);
                let j = choose|j: int| 0 <= j < d.len() && d[j] == fd[k];
                assert(s[j].id != s[s.len() - 1].id);
            }
        }
    }
}

impl AppData {
    /// Remove every transient marquee (Selection-kind) element.  Called once
    /// a marquee drag completes: the marquee rectangle is a visual aid and is
    /// never persisted or exported.
    pub fn clean(&mut self)
        ensures
            final(self)@ == spec_clean(old(self)@),
            final(self).next_id == old(self).next_id,
            old(self).wf() ==> final(self).wf(),
    {
        let ghost orig = self@;
        let mut source: Vec<Element> = Vec::new();
        core::mem::swap(&mut self.elements, &mut source);
        proof {
            reveal(Seq::filter);
            assert(source.deep_view() =~= orig);
            assert(self@ =~= orig.take(0).filter(pred_not_marquee()));
        }
        let n = source.len();
        while source.len() > 0
            invariant
                n == orig.len(),
                source.len() <= n,
                source.deep_view() =~= orig.subrange(n - source.len(), n as int),
                self@ == spec_clean(orig.take(n - source.len())),
                self.next_id == old(self).next_id,
            decreases source.len(),
        {
            let ghost i = n - source@.len();
            let ghost prev_scene = self@;
            let ghost prev_source = source.deep_view();
            let e = source.remove(0);
            proof {
                assert(e.deep_view() == prev_source[0]);
                assert(prev_source[0] == orig[i]);
                assert(source.deep_view() =~= prev_source.subrange(1, prev_source.len() as int));
                assert(source.deep_view() =~= orig.subrange(i + 1, n as int));
                assert(orig.take(i + 1) =~= orig.take(i).push(orig[i]));
                orig.take(i).lemma_filter_push(orig[i], pred_not_marquee());
            }
            let keep = match e.kind {
                WidgetKind::Selection => false,
                _ => true,
            };
            if keep {
                self.elements.push(e);
                proof {
                    assert(self@ =~= prev_scene.push(orig[i]));
                }
            }
        }
        proof {
            assert(orig.take(n as int) == orig);
            if old(self).wf() {
                lemma_filter_ids(orig, pred_not_marquee(), old(self).next_id);
            }
        }
    }

    /// Remove every selected element.
    pub fn delete_selected_elements(&mut self)
        ensures
            final(self)@ == spec_remove_selected(old(self)@),
            final(self).next_id == old(self).next_id,
            old(self).wf() ==> final(self).wf(),
    {
        let ghost orig = self@;
        let mut source: Vec<Element> = Vec::new();
        core::mem::swap(&mut self.elements, &mut source);
        proof {
            reveal(Seq::filter);
            assert(source.deep_view() =~= orig);
            assert(self@ =~= orig.take(0).filter(pred_not_selected()));
        }
        let n = source.len();
        while source.len() > 0
            invariant
                n == orig.len(),
                source.len() <= n,
                source.deep_view() =~= orig.subrange(n - source.len(), n as int),
                self@ == spec_remove_selected(orig.take(n - source.len())),
                self.next_id == old(self).next_id,
            decreases source.len(),
        {
            let ghost i = n - source@.len();
            let ghost prev_scene = self@;
            let ghost prev_source = source.deep_view();
            let e = source.remove(0);
            proof {
                assert(e.deep_view() == prev_source[0]);
                assert(prev_source[0] == orig[i]);
                assert(source.deep_view() =~= prev_source.subrange(1, prev_source.len() as int));
                assert(source.deep_view() =~= orig.subrange(i + 1, n as int));
                assert(orig.take(i + 1) =~= orig.take(i).push(orig[i]));
                orig.take(i).lemma_filter_push(orig[i], pred_not_selected());
            }
            if !e.is_selected() {
                self.elements.push(e);
                proof {
                    assert(self@ =~= prev_scene.push(orig[i]));
                }
            }
        }
        proof {
            assert(orig.take(n as int) == orig);
            if old(self).wf() {
                lemma_filter_ids(orig, pred_not_selected(), old(self).next_id);
            }
        }
    }

    /// Translate every selected element by (offset_x, offset_y); unselected
    /// elements are untouched.
    pub fn move_selected_elements(&mut self, offset_x: i32, offset_y: i32)
        requires
            forall|j: int|
                0 <= j < old(self)@.len() && old(self)@[j].is_selected ==> spec_can_move(
                    #[trigger] old(self)@[j],
                    offset_x as int,
                    offset_y as int,
                ),
        ensures
            final(self)@.len() == old(self)@.len(),
            forall|j: int|
                0 <= j < old(self)@.len() ==> final(self)@[j] == (if old(self)@[j].is_selected {
                    spec_moved(old(self)@[j], offset_x as int, offset_y as int)
                } else {
                    old(self)@[j]
                }),
            final(self).next_id == old(self).next_id,
            old(self).wf() ==> final(self).wf(),
    {
        let ghost orig = self@;
        let n = self.elements.len();
        let mut i: usize = 0;
        while i < n
            invariant
                n == self.elements.len(),
                self@.len() == orig.len() == n,
                0 <= i <= n,
                self.next_id == old(self).next_id,
                forall|j: int|
                    0 <= j < n && orig[j].is_selected ==> spec_can_move(
                        #[trigger] orig[j],
                        offset_x as int,
                        offset_y as int,
                    ),
                forall|j: int|
                    0 <= j < i ==> #[trigger] self@[j] == (if orig[j].is_selected {
                        spec_moved(orig[j], offset_x as int, offset_y as int)
                    } else {
                        orig[j]
                    }),
                forall|j: int| i <= j < n ==> #[trigger] self@[j] == orig[j],
            decreases n - i,
        {
            if self.elements[i].is_selected() {
                let ghost prev = self@;
                self.elements[i].move_element(offset_x, offset_y);
                proof {
                    assert(self@ =~= prev.update(
                        i as int,
                        spec_moved(prev[i as int], offset_x as int, offset_y as int),
                    ));
                }
            }
            i = i + 1;
        }
    }

    /// Translate every element by (offset_x, offset_y).
    pub fn move_all_elements(&mut self, offset_x: i32, offset_y: i32)
        requires
            forall|j: int|
                0 <= j < old(self)@.len() ==> spec_can_move(
                    #[trigger] old(self)@[j],
                    offset_x as int,
                    offset_y as int,
                ),
        ensures
            final(self)@.len() == old(self)@.len(),
            forall|j: int|
                0 <= j < old(self)@.len() ==> final(self)@[j] == spec_moved(
                    old(self)@[j],
                    offset_x as int,
                    offset_y as int,
                ),
            final(self).next_id == old(self).next_id,
            old(self).wf() ==> final(self).wf(),
    {
        let ghost orig = self@;
        let n = self.elements.len();
        let mut i: usize = 0;
        while i < n
            invariant
                n == self.elements.len(),
                self@.len() == orig.len() == n,
                0 <= i <= n,
                self.next_id == old(self).next_id,
                forall|j: int|
                    0 <= j < n ==> spec_can_move(#[trigger] orig[j], offset_x as int, offset_y as int),
                forall|j: int|
                    0 <= j < i ==> #[trigger] self@[j] == spec_moved(
                        orig[j],
                        offset_x as int,
                        offset_y as int,
                    ),
                forall|j: int| i <= j < n ==> #[trigger] self@[j] == orig[j],
            decreases n - i,
        {
            let ghost prev = self@;
            self.elements[i].move_element(offset_x, offset_y);
            proof {
                assert(self@ =~= prev.update(
                    i as int,
                    spec_moved(prev[i as int], offset_x as int, offset_y as int),
                ));
            }
            i = i + 1;
        }
    }

    /// Whether every selected element can be translated by (offset_x,
    /// offset_y) without leaving the coordinate range.
    pub fn can_move_selected(&self, offset_x: i32, offset_y: i32) -> (r: bool)
        ensures
            r == (forall|j: int|
                0 <= j < self@.len() && self@[j].is_selected ==> spec_can_move(
                    #[trigger] self@[j],
                    offset_x as int,
                    offset_y as int,
                )),
    {
        let n = self.elements.len();
        let mut i: usize = 0;
        while i < n
            invariant
                n == self.elements.len(),
                0 <= i <= n,
                forall|j: int|
                    0 <= j < i && self@[j].is_selected ==> spec_can_move(
                        #[trigger] self@[j],
                        offset_x as int,
                        offset_y as int,
                    ),
            decreases n - i,
        {
            if self.elements[i].is_selected() && !self.elements[i].can_move(offset_x, offset_y) {
                proof {
                    assert(self@[i as int] == self.elements@[i as int]@);
                }
                return false;
            }
            i = i + 1;
        }
        true
    }

    /// The selected elements, in scene order (e.g. for copy-to-clipboard).
    pub fn get_selected_elements(&self) -> (r: Vec<&Element>)
        ensures
            r.deep_view() == spec_selected(self@),
    {
        proof {
            reveal(Seq::filter);
        }
        let mut r: Vec<&Element> = Vec::new();
        let n = self.elements.len();
        let mut i: usize = 0;
        while i < n
            invariant
                n == self.elements.len(),
                0 <= i <= n,
                r.deep_view() == spec_selected(self@.take(i as int)),
            decreases n - i,
        {
            proof {
                assert(self@.take(i + 1) =~= self@.take(i as int).push(self@[i as int]));
                self@.take(i as int).lemma_filter_push(self@[i as int], pred_selected());
            }
            if self.elements[i].is_selected() {
                let ghost prev = r.deep_view();
                r.push(&self.elements[i]);
                proof {
                    assert(r.deep_view() =~= prev.push(self@[i as int]));
                }
            }
            i = i + 1;
        }
        proof {
            assert(self@.take(n as int) == self@);
        }
        r
    }
}


/// The views of pasted copies of `items`: identifiers minted from `base`
/// upwards, each rectangle translated by (10, 10) so pasted copies do not
/// exactly overlap the originals.
pub open spec fn spec_pasted(items: Seq<ElementView>, base: u64) -> Seq<ElementView> {
    Seq::new(
        items.len(),
        |j: int| ElementView {
            id: (base + j) as u64,
            rect: crate::rect::spec_translate(items[j].rect, 10, 10),
            ..items[j]
        },
    )
}

/// Paste makes offset copies only: each pasted element keeps its source's
/// kind, style, path and selection flag, its rectangle is the source's
/// translated by (10, 10), and its identifier is fresh: distinct from every
/// identifier already in a scene whose identifiers lie below `base`, and
/// from every other pasted element's.
pub proof fn lemma_paste_properties(scene: Seq<ElementView>, items: Seq<ElementView>, base: u64)
    requires
        forall|i: int| 0 <= i < scene.len() ==> #[trigger] scene[i].id < base,
        base + items.len() <= u64::MAX,
    ensures
        spec_pasted(items, base).len() == items.len(),
        forall|j: int|
            0 <= j < items.len() ==> #[trigger] spec_pasted(items, base)[j] == (ElementView {
                id: (base + j) as u64,
                rect: crate::rect::spec_translate(items[j].rect, 10, 10),
                ..items[j]
            }),
        forall|j: int, i: int|
            #![trigger spec_pasted(items, base)[j].id, scene[i].id]
            0 <= j < items.len() && 0 <= i < scene.len() ==> spec_pasted(items, base)[j].id
                != scene[i].id,
        forall|j: int, k: int|
            #![trigger spec_pasted(items, base)[j].id, spec_pasted(items, base)[k].id]
            0 <= j < k < items.len() ==> spec_pasted(items, base)[j].id != spec_pasted(
                items,
                base,
            )[k].id,
{
}

/// Whether persisted identifiers can be kept on reload: every one nonzero
/// and below the counter limit, and no two equal.
pub open spec fn spec_ids_usable(s: Seq<ElementView>) -> bool {
    &&& forall|i: int| 0 <= i < s.len() ==> 1 <= #[trigger] s[i].id < u64::MAX
    &&& forall|i: int, j: int|
        #![trigger s[i].id, s[j].id]
        0 <= i < j < s.len() ==> s[i].id != s[j].id
}

/// The largest identifier in `s`, or 0 for the empty sequence.
pub open spec fn spec_max_id(s: Seq<ElementView>) -> u64
    decreases s.len(),
{
    if s.len() == 0 {
        0u64
    } else {
        let m = spec_max_id(s.drop_last());
        if s.last().id > m {
            s.last().id
        } else {
            m
        }
    }
}

/// Every identifier is bounded by the maximum, and a nonzero maximum is
/// itself one of the identifiers.
proof fn lemma_max_id(s: Seq<ElementView>)
    ensures
        forall|i: int| 0 <= i < s.len() ==> #[trigger] s[i].id <= spec_max_id(s),
        spec_max_id(s) == 0 || exists|i: int|
            0 <= i < s.len() && #[trigger] s[i].id == spec_max_id(s),
    decreases s.len(),
{
    if s.len() > 0 {
        let d = s.drop_last();
        lemma_max_id(d);
        assert(forall|i: int| 0 <= i < d.len() ==> #[trigger] d[i] == s[i]);
        assert forall|i: int| 0 <= i < s.len() implies #[trigger] s[i].id <= spec_max_id(s) by {
            if i < s.len() - 1 {
                assert(d[i] == s[i]);
                assert(d[i].id <= spec_max_id(d));
            }
        }
        if s.last().id <= spec_max_id(d) && spec_max_id(d) != 0 {
            let w = choose|i: int| 0 <= i < d.len() && #[trigger] d[i].id == spec_max_id(d);
            assert(s[w].id == spec_max_id(s));
        }
    }
}

/// Whether the identifiers of `elements` can be kept on reload, and their
/// maximum when they can.
fn check_ids(elements: &Vec<Element>) -> (r: (bool, u64))
    ensures
        r.0 == spec_ids_usable(elements.deep_view()),
        r.0 ==> r.1 == spec_max_id(elements.deep_view()),
{
    let ghost dv = elements.deep_view();
    let n = elements.len();
    let mut max_id: u64 = 0;
    let mut i: usize = 0;
    while i < n
        invariant
            n == elements.len(),
            dv == elements.deep_view(),
            0 <= i <= n,
            max_id == spec_max_id(dv.take(i as int)),
            forall|a: int| 0 <= a < i ==> 1 <= #[trigger] dv[a].id < u64::MAX,
            forall|a: int, b: int|
                #![trigger dv[a].id, dv[b].id]
                0 <= a < b < i ==> dv[a].id != dv[b].id,
        decreases n - i,
    {
        proof {
            assert(dv.take(i + 1).drop_last() =~= dv.take(i as int));
            assert(dv.take(i + 1).last() == dv[i as int]);
            assert(dv[i as int] == elements@[i as int]@);
        }
        let id = elements[i].id;
        if id == 0 || id == u64::MAX {
            proof {
                if spec_ids_usable(dv) {
                    assert(1 <= dv[i as int].id < u64::MAX);
                }
            }
            return (false, 0);
        }
        let mut j: usize = 0;
        while j < i
            invariant
                n == elements.len(),
                dv == elements.deep_view(),
                0 <= j <= i < n,
                id == dv[i as int].id,
                forall|b: int| 0 <= b < j ==> #[trigger] dv[b].id != id,
            decreases i - j,
        {
            if elements[j].id == id {
                proof {
                    assert(dv[j as int] == elements@[j as int]@);
                    assert(dv[j as int].id == dv[i as int].id);
                }
                return (false, 0);
            }
            j = j + 1;
        }
        if id > max_id {
            max_id = id;
        }
        i = i + 1;
    }
    proof {
        assert(dv.take(n as int) == dv);
    }
    (true, max_id)
}

impl AppData {
    /// Paste: append a copy of every item under a fresh identifier,
    /// translated by (10, 10); the originals, their identifiers and their
    /// selection states are untouched.  Returns false, changing nothing, if
    /// an item sits at the edge of the coordinate range or the identifier
    /// counter would overflow.
    pub fn paste_elements(&mut self, items: &Vec<Element>) -> (ok: bool)
        requires
            old(self).wf(),
        ensures
            final(self).wf(),
            ok == (old(self).next_id + items@.len() <= u64::MAX && forall|j: int|
                0 <= j < items@.len() ==> spec_can_move(#[trigger] items.deep_view()[j], 10, 10)),
            ok ==> final(self)@ == old(self)@ + spec_pasted(items.deep_view(), old(self).next_id),
            ok ==> final(self).next_id == old(self).next_id + items@.len(),
            !ok ==> final(self)@ == old(self)@ && final(self).next_id == old(self).next_id,
    {
        let n = items.len();
        if n as u64 > u64::MAX - self.next_id {
            proof {
                assert(self.wf());
            }
            return false;
        }
        let mut i: usize = 0;
        while i < n
            invariant
                n == items@.len(),
                0 <= i <= n,
                forall|j: int|
                    0 <= j < i ==> spec_can_move(#[trigger] items.deep_view()[j], 10, 10),
                self == old(self),
                self.wf(),
            decreases n - i,
        {
            if !items[i].can_move(10, 10) {
                proof {
                    assert(items.deep_view()[i as int] == items@[i as int]@);
                    assert(self.wf());
                }
                return false;
            }
            i = i + 1;
        }
        let ghost orig = self@;
        let ghost base = self.next_id;
        let ghost pasted = spec_pasted(items.deep_view(), base);
        let mut i: usize = 0;
        while i < n
            invariant
                n == items@.len(),
                0 <= i <= n,
                base + n <= u64::MAX,
                forall|j: int|
                    0 <= j < n ==> spec_can_move(#[trigger] items.deep_view()[j], 10, 10),
                self.next_id == base + i,
                self@ =~= orig + pasted.take(i as int),
                pasted == spec_pasted(items.deep_view(), base),
                orig.len() == old(self)@.len(),
                forall|j: int| 0 <= j < orig.len() ==> #[trigger] orig[j] == old(self)@[j],
                forall|j: int| 0 <= j < orig.len() ==> 1 <= #[trigger] orig[j].id < base,
                forall|i0: int, j0: int|
                    #![trigger orig[i0].id, orig[j0].id]
                    0 <= i0 < j0 < orig.len() ==> orig[i0].id != orig[j0].id,
            decreases n - i,
        {
            let ghost prev = self@;
            let id = self.mint_id();
            let mut e = Element::from(&items[i], id);
            proof {
                assert(items.deep_view()[i as int] == items@[i as int]@);
            }
            e.move_element(10, 10);
            self.elements.push(e);
            proof {
                assert(self@ =~= prev.push(e@));
                assert(e@ == pasted[i as int]);
                assert(self@ =~= orig + pasted.take(i + 1));
            }
            i = i + 1;
        }
        proof {
            assert(pasted.take(n as int) == pasted);
            assert(final(self)@ == orig + pasted);
            assert forall|k: int| 0 <= k < final(self)@.len() implies 1 <= #[trigger] final(self)@[k].id
                < final(self).next_id by {
                if k >= orig.len() {
                    assert(final(self)@[k] == pasted[k - orig.len()]);
                }
            }
            assert forall|k: int, l: int|
                #![trigger final(self)@[k].id, final(self)@[l].id]
                0 <= k < l < final(self)@.len() implies final(self)@[k].id != final(self)@[l].id by {
                if k >= orig.len() {
                    assert(final(self)@[k] == pasted[k - orig.len()]);
                }
                if l >= orig.len() {
                    assert(final(self)@[l] == pasted[l - orig.len()]);
                }
            }
        }
        true
    }

    /// Rebuild a scene from persisted elements: every element is forced
    /// unselected.  The stored identifiers are kept when they are usable
    /// (nonzero, below the counter limit, pairwise distinct), with the
    /// counter resuming above their maximum; otherwise fresh identifiers
    /// are minted in order.  Either way the scene invariant holds whatever
    /// the storage held.
    pub fn from_elements(elements: Vec<Element>) -> (r: AppData)
        requires
            elements@.len() < u64::MAX,
        ensures
            r.wf(),
            r@.len() == elements.deep_view().len(),
            spec_ids_usable(elements.deep_view()) ==> ({
                &&& forall|j: int|
                    0 <= j < elements.deep_view().len() ==> r@[j] == (ElementView {
                        is_selected: false,
                        ..elements.deep_view()[j]
                    })
                &&& r.next_id == spec_max_id(elements.deep_view()) + 1
            }),
            !spec_ids_usable(elements.deep_view()) ==> ({
                &&& forall|j: int|
                    0 <= j < elements.deep_view().len() ==> r@[j] == (ElementView {
                        id: (j + 1) as u64,
                        is_selected: false,
                        ..elements.deep_view()[j]
                    })
                &&& r.next_id == elements.deep_view().len() + 1
            }),
    {
        let (usable, max_id) = check_ids(&elements);
        if usable {
            let ghost orig = elements.deep_view();
            let mut out: Vec<Element> = Vec::new();
            let mut source = elements;
            let n = source.len();
            while source.len() > 0
                invariant
                    n == orig.len(),
                    source.len() <= n,
                    source.deep_view() =~= orig.subrange(n - source.len(), n as int),
                    out.deep_view().len() == n - source.len(),
                    forall|j: int|
                        0 <= j < n - source.len() ==> #[trigger] out.deep_view()[j]
                            == (ElementView { is_selected: false, ..orig[j] }),
                decreases source.len(),
            {
                let ghost i = n - source@.len();
                let ghost prev_out = out.deep_view();
                let ghost prev_source = source.deep_view();
                let mut e = source.remove(0);
                proof {
                    assert(e.deep_view() == prev_source[0]);
                    assert(prev_source[0] == orig[i]);
                    assert(source.deep_view() =~= prev_source.subrange(
                        1,
                        prev_source.len() as int,
                    ));
                    assert(source.deep_view() =~= orig.subrange(i + 1, n as int));
                }
                e.is_selected = false;
                out.push(e);
                proof {
                    assert(out.deep_view() =~= prev_out.push(e@));
                }
            }
            proof {
                lemma_max_id(orig);
            }
            let data = AppData { elements: out, next_id: max_id + 1 };
            proof {
                assert forall|i0: int, j0: int|
                    #![trigger data@[i0].id, data@[j0].id]
                    0 <= i0 < j0 < data@.len() implies data@[i0].id != data@[j0].id by {
                    assert(orig[i0].id != orig[j0].id);
                }
            }
            return data;
        }
        let mut data = AppData::new();
        let mut source = elements;
        let ghost orig = source.deep_view();
        let n = source.len();
        while source.len() > 0
            invariant
                n == orig.len(),
                n < u64::MAX,
                source.len() <= n,
                source.deep_view() =~= orig.subrange(n - source.len(), n as int),
                data.next_id == n - source.len() + 1,
                data@.len() == n - source.len(),
                forall|j: int|
                    0 <= j < n - source.len() ==> #[trigger] data@[j] == (ElementView {
                        id: (j + 1) as u64,
                        is_selected: false,
                        ..orig[j]
                    }),
            decreases source.len(),
        {
            let ghost i = n - source@.len();
            let ghost prev_scene = data@;
            let ghost prev_source = source.deep_view();
            let mut e = source.remove(0);
            proof {
                assert(e.deep_view() == prev_source[0]);
                assert(prev_source[0] == orig[i]);
                assert(source.deep_view() =~= prev_source.subrange(1, prev_source.len() as int));
                assert(source.deep_view() =~= orig.subrange(i + 1, n as int));
            }
            let id = data.mint_id();
            e.id = id;
            e.is_selected = false;
            data.elements.push(e);
            proof {
                assert(data@ =~= prev_scene.push(e@));
            }
        }
        proof {
            assert forall|i0: int, j0: int|
                #![trigger data@[i0].id, data@[j0].id]
                0 <= i0 < j0 < data@.len() implies data@[i0].id != data@[j0].id by {}
        }
        data
    }
}

impl Default for AppData {
    /// An empty scene.
    fn default() -> (r: AppData)
        ensures
            r@ =~= Seq::<ElementView>::empty(),
            r.next_id == 1,
            r.wf(),
    {
        AppData::new()
    }
}


/// Select-all followed by delete-selected empties the scene: every element,
/// the transient marquee included, is selected and therefore deleted.
pub proof fn lemma_select_all_then_delete(s: Seq<ElementView>)
    requires
        forall|j: int| 0 <= j < s.len() ==> #[trigger] s[j].is_selected,
    ensures
        spec_remove_selected(s).len() == 0,
    decreases s.len(),
{
    reveal(Seq::filter);
    if s.len() > 0 {
        let d = s.drop_last();
        assert(forall|j: int| 0 <= j < d.len() ==> #[trigger] d[j] == s[j]);
        lemma_select_all_then_delete(d);
        assert(!pred_not_selected()(s.last()));
    }
}

} // verus!
