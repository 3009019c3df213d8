//! The application state threaded through the interaction state machine and
//! the renderer: the active tool, the ambient style configuration, the
//! export options and the scene itself.

use vstd::prelude::*;
use vstd::string::StringExecFns;

use crate::element::{spec_can_move, spec_moved};
use crate::scene::{spec_remove_selected, AppData};
use crate::widget_kind::WidgetKind;

verus! {

/// How the scene is exported as a raster image.
#[derive(Debug, Clone, Copy, PartialEq, Eq, Structural)]
pub struct ExportConfig {
    /// Fill the exported image with the view background color.
    pub background: bool,
    /// Export a tight bounding box around the elements rather than the whole
    /// canvas.
    pub visible_area_only: bool,
    /// Margin, in pixels, added around the exported area.
    pub padding: u32,
}

impl Default for ExportConfig {
    fn default() -> (r: Self)
        ensures
            r == (ExportConfig { background: false, visible_area_only: true, padding: 10u32 }),
    {
        Self { background: false, visible_area_only: true, padding: 10 }
    }
}

/// The application context: the active tool, the style captured for new
/// elements, the export options and the scene.
#[derive(Debug)]
pub struct AppState {
    pub selected_kind: WidgetKind,
    pub export_config: ExportConfig,
    pub view_bg_color: String,
    pub item_stroke_color: String,
    pub item_bg_color: String,
    pub app_data: AppData,
}

impl AppState {
    /// The state at startup: the selection tool active, default export
    /// options, a white view over black strokes and fills, and the given
    /// scene.
    pub fn new(app_data: AppData) -> (r: AppState)
        ensures
            r.selected_kind == WidgetKind::Selection,
            r.export_config == (ExportConfig {
                background: false,
                visible_area_only: true,
                padding: 10u32,
            }),
            r.view_bg_color@ == "#ffffff"@,
            r.item_stroke_color@ == "#000000"@,
            r.item_bg_color@ == "#000000"@,
            r.app_data == app_data,
    {
        AppState {
            selected_kind: WidgetKind::Selection,
            export_config: ExportConfig::default(),
            view_bg_color: String::from_str("#ffffff"),
            item_stroke_color: String::from_str("#000000"),
            item_bg_color: String::from_str("#000000"),
            app_data,
        }
    }

    /// Make `kind` the active tool.
    pub fn set_selected_kind(&mut self, kind: WidgetKind)
        ensures
            *final(self) == (AppState { selected_kind: kind, ..*old(self) }),
    {
        self.selected_kind = kind;
    }

    /// Revert the active tool to the selection tool (tools are single-use
    /// per shape).
    pub fn set_selected_kind_default(&mut self)
        ensures
            *final(self) == (AppState { selected_kind: WidgetKind::Selection, ..*old(self) }),
    {
        self.selected_kind = WidgetKind::Selection;
    }

    /// Delete every selected element.
    pub fn delete_selected_elements(&mut self)
        ensures
            final(self).app_data@ == spec_remove_selected(old(self).app_data@),
            final(self).app_data.next_id == old(self).app_data.next_id,
            old(self).app_data.wf() ==> final(self).app_data.wf(),
            final(self).selected_kind == old(self).selected_kind,
            final(self).export_config == old(self).export_config,
            final(self).view_bg_color == old(self).view_bg_color,
            final(self).item_stroke_color == old(self).item_stroke_color,
            final(self).item_bg_color == old(self).item_bg_color,
    {
        self.app_data.delete_selected_elements();
    }

    /// Deselect every element.
    pub fn clear_selection_elements(&mut self)
        ensures
            final(self).app_data@.len() == old(self).app_data@.len(),
            forall|j: int|
                0 <= j < old(self).app_data@.len() ==> final(self).app_data@[j]
                    == (crate::element::ElementView {
                    is_selected: false,
                    ..old(self).app_data@[j]
                }),
            final(self).app_data.next_id == old(self).app_data.next_id,
            old(self).app_data.wf() ==> final(self).app_data.wf(),
            final(self).selected_kind == old(self).selected_kind,
            final(self).export_config == old(self).export_config,
            final(self).view_bg_color == old(self).view_bg_color,
            final(self).item_stroke_color == old(self).item_stroke_color,
            final(self).item_bg_color == old(self).item_bg_color,
    {
        self.app_data.clean_selected_state();
    }

    /// Move every selected element by (offset_x, offset_y).  Returns false,
    /// changing nothing, if some selected element sits at the edge of the
    /// coordinate range.
    pub fn move_selected_elements(&mut self, offset_x: i32, offset_y: i32) -> (moved: bool)
        ensures
            moved == (forall|j: int|
                0 <= j < old(self).app_data@.len() && old(self).app_data@[j].is_selected
                    ==> spec_can_move(
                    #[trigger] old(self).app_data@[j],
                    offset_x as int,
                    offset_y as int,
                )),
            final(self).app_data@.len() == old(self).app_data@.len(),
            forall|j: int|
                0 <= j < old(self).app_data@.len() ==> final(self).app_data@[j] == (if moved
                    && old(self).app_data@[j].is_selected {
                    spec_moved(old(self).app_data@[j], offset_x as int, offset_y as int)
                } else {
                    old(self).app_data@[j]
                }),
            final(self).app_data.next_id == old(self).app_data.next_id,
            old(self).app_data.wf() ==> final(self).app_data.wf(),
            final(self).selected_kind == old(self).selected_kind,
            final(self).export_config == old(self).export_config,
            final(self).view_bg_color == old(self).view_bg_color,
            final(self).item_stroke_color == old(self).item_stroke_color,
            final(self).item_bg_color == old(self).item_bg_color,
    {
        if self.app_data.can_move_selected(offset_x, offset_y) {
            self.app_data.move_selected_elements(offset_x, offset_y);
            true
        } else {
            false
        }
    }

    /// Select every element.
    pub fn select_all_elements(&mut self)
        ensures
            final(self).app_data@.len() == old(self).app_data@.len(),
            forall|j: int|
                0 <= j < old(self).app_data@.len() ==> final(self).app_data@[j]
                    == (crate::element::ElementView {
                    is_selected: true,
                    ..old(self).app_data@[j]
                }),
            final(self).app_data.next_id == old(self).app_data.next_id,
            old(self).app_data.wf() ==> final(self).app_data.wf(),
            final(self).selected_kind == old(self).selected_kind,
            final(self).export_config == old(self).export_config,
            final(self).view_bg_color == old(self).view_bg_color,
            final(self).item_stroke_color == old(self).item_stroke_color,
            final(self).item_bg_color == old(self).item_bg_color,
    {
        self.app_data.select_all_elements();
    }
}

} // verus!
