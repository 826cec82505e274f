use vstd::prelude::*;

use crate::font_editor::FontEditorView;

verus! {

/// What happened on the canvas.
#[derive(Debug, Clone, Copy, PartialEq, Eq, Structural)]
pub enum CanvasEvent {
    Modified,
}

/// What happened in the toolbox.
#[derive(Debug, Clone, Copy, PartialEq, Eq, Structural)]
pub enum ToolboxEvent {
    ToolSelected,
    BrushChanged,
}

/// What happened in the font editor.
#[derive(Debug, Clone, Copy, PartialEq, Eq, Structural)]
pub enum FontEditorEvent {
    /// The font editor handled a key; the screen it now shows.
    Changed(FontEditorView),
}

} // verus!
