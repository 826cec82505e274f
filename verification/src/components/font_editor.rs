use vstd::prelude::*;

use crate::canvas::CanvasBuffer;
use crate::events::FontEditorEvent;
use crate::font::FIGcharacter;
use crate::font_editor::{canvas_synced, font_key_ok, font_key_post, FontEditor, FontEditorView};
use crate::keys::{KeyCode, KeyModifiers};

verus! {

/// The font editor as a screen component, with the width it was last drawn
/// at.
pub struct FontEditorComponent {
    pub editor: FontEditor,
    pub area_width: u16,
}

impl FontEditorComponent {
    /// A component with an empty editor, 80 columns wide.
    pub fn new() -> (c: FontEditorComponent)
        ensures
            c.editor.font.is_none(),
            c.editor.view == FontEditorView::Overview,
            c.area_width == 80,
    {
        FontEditorComponent { editor: FontEditor::new(), area_width: 80 }
    }

    /// Take the characters of `buffer` as the rows of glyph `code`.
    pub fn sync_from_canvas(&mut self, code: u32, buffer: &CanvasBuffer)
        requires
            buffer@.wf(),
        ensures
            final(self).area_width == old(self).area_width,
            canvas_synced(old(self).editor, final(self).editor, code, buffer@),
    {
        self.editor.sync_from_canvas(code, buffer);
    }

    /// The code and glyph edited in the character editor.
    pub fn selected_char(&self) -> (r: Option<(u32, &FIGcharacter)>)
        ensures
            match self.editor.view {
                FontEditorView::CharEditor(code) => match self.editor.font {
                    Some(f) => if f.chars@.contains_key(code) {
                        r is Some && r.unwrap().0 == code && *r.unwrap().1 == f.chars@[code]
                    } else {
                        r is None
                    },
                    None => r is None,
                },
                _ => r is None,
            },
    {
        self.editor.selected_char()
    }

    /// Remember the width the editor is drawn at.
    pub fn set_area_width(&mut self, width: u16)
        ensures
            final(self).area_width == width,
            final(self).editor == old(self).editor,
    {
        self.area_width = width;
    }

    /// A key for the editor: reports the screen it shows when it used the
    /// key.
    pub fn handle_key(&mut self, code: KeyCode, modifiers: KeyModifiers) -> (r: Option<FontEditorEvent>)
        requires
            font_key_ok(old(self).editor, code, old(self).area_width),
        ensures
            exists|used: bool| {
                &&& font_key_post(old(self).editor, final(self).editor, code, modifiers, old(self).area_width, used)
                &&& r == (if used {
                    Some(FontEditorEvent::Changed(final(self).editor.view))
                } else {
                    None
                })
            },
            final(self).area_width == old(self).area_width,
    {
        if self.editor.handle_key(code, modifiers, self.area_width) {
            Some(FontEditorEvent::Changed(self.editor.view))
        } else {
            None
        }
    }
}

impl Default for FontEditorComponent {
    fn default() -> (c: FontEditorComponent)
        ensures
            c.area_width == 80,
    {
        FontEditorComponent::new()
    }
}

} // verus!
