use vstd::prelude::*;

use crate::export::{export_key_post, ExportDialog, ExportError, ExportMode};
use crate::keys::KeyCode;

verus! {

/// The export dialog as a screen component.
pub struct ExportComponent {
    pub dialog: ExportDialog,
}

/// What the export component made of a key.
#[derive(Debug, Clone, Copy, PartialEq, Eq, Structural)]
pub enum ExportReply {
    /// The dialog closed: export in this format.
    ExportRequested(ExportMode),
    /// The dialog is still open.
    Handled,
}

impl ExportComponent {
    /// A component with a closed export dialog.
    pub fn new() -> (c: ExportComponent)
        ensures
            !c.dialog.active,
            c.dialog.format == ExportMode::Png,
            c.dialog.font_size == 2,
            c.dialog.path_buffer@.len() == 0,
    {
        ExportComponent { dialog: ExportDialog::new() }
    }

    /// A key while the dialog is open (`None` while it is closed): the
    /// dialog takes it, and an export is requested when it closes.
    pub fn handle_key(&mut self, code: KeyCode, path_is_dir: bool) -> (r: Option<ExportReply>)
        ensures
            !old(self).dialog.active ==> r is None && final(self).dialog == old(self).dialog,
            old(self).dialog.active ==> {
                &&& exists|used: bool| export_key_post(old(self).dialog, final(self).dialog, code, path_is_dir, used)
                &&& r == Some(if final(self).dialog.active {
                    ExportReply::Handled
                } else {
                    ExportReply::ExportRequested(final(self).dialog.format)
                })
            },
    {
        if !self.dialog.active {
            return None;
        }
        let used = self.dialog.handle_key(code, path_is_dir);
        if !self.dialog.active {
            return Some(ExportReply::ExportRequested(self.dialog.format));
        }
        Some(ExportReply::Handled)
    }
}

impl ExportComponent {
    /// Finish an export: an empty path is refused with `no path specified`
    /// and the dialog left as it is (the caller writes nothing then);
    /// otherwise `written` tells whether the file was written (`Ok`) or why
    /// not (`Err`), see `ExportDialog::finish_export`.
    pub fn perform_export(&mut self, written: Result<(), String>) -> (r: Result<(), ExportError>)
        ensures
            old(self).dialog.path_buffer@.len() == 0 ==> (r matches Err(ExportError::InvalidCells(m)) && m@ == "no path specified"@)
                && *final(self) == *old(self),
            old(self).dialog.path_buffer@.len() > 0 && written is Ok ==> r is Ok && final(self).dialog.error_message@.len() == 0
                && final(self).dialog == (ExportDialog { error_message: final(self).dialog.error_message, ..old(self).dialog }),
            old(self).dialog.path_buffer@.len() > 0 ==> (written matches Err(e) ==> (r matches Err(ExportError::IoError(m)) && m@ == e@)
                && *final(self) == *old(self)),
    {
        match self.dialog.export_path() {
            Err(e) => Err(e),
            Ok(_) => self.dialog.finish_export(written),
        }
    }
}

impl Default for ExportComponent {
    fn default() -> (c: ExportComponent)
        ensures
            !c.dialog.active,
    {
        ExportComponent::new()
    }
}

} // verus!
