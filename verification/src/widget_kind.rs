//! The closed set of widget kinds a scene element can have.

use vstd::prelude::*;
use vstd::string::StringExecFns;

verus! {

/// The kind of an element.  `Selection` is a transient pseudo-kind for the
/// marquee rectangle: it is stripped from the scene once a marquee drag
/// completes and is never part of the persisted scene.
#[derive(Debug, Clone, Copy, PartialEq, Eq, Structural)]
pub enum WidgetKind {
    Rectangle,
    Ellipse,
    Arrow,
    Text,
    Selection,
}

/// The display name of a widget kind.
pub open spec fn spec_kind_name(kind: WidgetKind) -> Seq<char> {
    match kind {
        WidgetKind::Rectangle => "Rectangle"@,
        WidgetKind::Ellipse => "Ellipse"@,
        WidgetKind::Arrow => "Arrow"@,
        WidgetKind::Text => "Text"@,
        WidgetKind::Selection => "Selection"@,
    }
}

impl WidgetKind {
    /// The kind's display name, as shown in the toolbar.
    pub fn to_string(&self) -> (r: String)
        ensures
            r@ == spec_kind_name(*self),
    {
        match self {
            WidgetKind::Rectangle => String::from_str("Rectangle"),
            WidgetKind::Ellipse => String::from_str("Ellipse"),
            WidgetKind::Arrow => String::from_str("Arrow"),
            WidgetKind::Text => String::from_str("Text"),
            WidgetKind::Selection => String::from_str("Selection"),
        }
    }
}

impl Default for WidgetKind {
    fn default() -> (r: Self)
        ensures
            r == WidgetKind::Rectangle,
    {
        WidgetKind::Rectangle
    }
}

} // verus!
