use vstd::prelude::*;

use crate::image_editor::{image_key_post, steps_fit, AdjustmentMode, AsciiMode, ImageEditor, ImageEffect};
use crate::keys::KeyCode;

verus! {

/// The image editor as a screen component.
pub struct ImageEditorComponent {
    pub editor: ImageEditor,
}

impl ImageEditorComponent {
    /// A component with a new editor.
    pub fn new() -> (c: ImageEditorComponent)
        ensures
            c.editor.mode == AsciiMode::Grayscale,
            c.editor.adjustment_mode == AdjustmentMode::Off,
            !c.editor.entering_path,
    {
        ImageEditorComponent { editor: ImageEditor::new() }
    }

    /// A key for the editor: when it takes the key, what the caller is to
    /// do (see `image_key_post`); `None` when it does not.
    pub fn handle_key(&mut self, code: KeyCode) -> (r: Option<ImageEffect>)
        requires
            steps_fit(old(self).editor),
        ensures
            match r {
                Some(e) => image_key_post(old(self).editor, final(self).editor, code, e, true),
                None => image_key_post(old(self).editor, final(self).editor, code, ImageEffect::Nothing, false),
            },
    {
        let (used, effect) = self.editor.handle_key(code);
        if used {
            Some(effect)
        } else {
            None
        }
    }
}

impl Default for ImageEditorComponent {
    fn default() -> (c: ImageEditorComponent)
        ensures
            c.editor.mode == AsciiMode::Grayscale,
    {
        ImageEditorComponent::new()
    }
}

} // verus!
