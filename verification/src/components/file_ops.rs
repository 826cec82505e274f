use vstd::prelude::*;

use crate::file_ops::{chosen_path, file_key_post, FileOpsDialog, FileOpsMode, RecentFiles};
use crate::keys::KeyCode;
use crate::text::strings_view;

verus! {

/// The file dialog and the recent files as a screen component.
pub struct FileOpsComponent {
    pub dialog: FileOpsDialog,
    pub recent_files: RecentFiles,
}

/// What the file component made of a key.
#[derive(Debug, Clone, Copy, PartialEq, Eq, Structural)]
pub enum FileOpsReply {
    /// The save dialog finished: save to the selected path.
    SaveAsRequested,
    /// The open dialog finished: open the selected path.
    OpenRequested,
    /// The dialog is still open.
    Handled,
}

impl FileOpsComponent {
    /// A component with an idle dialog and the given recent files (as
    /// loaded from disk by the caller).
    pub fn new(recent_files: RecentFiles) -> (c: FileOpsComponent)
        ensures
            c.dialog.mode == FileOpsMode::Idle,
            c.dialog.path_buffer@.len() == 0,
            c.recent_files@ == recent_files@,
    {
        FileOpsComponent { dialog: FileOpsDialog::new(), recent_files }
    }

    /// The path to save to or open.
    pub fn selected_path(&self) -> (p: String)
        ensures
            p@ == chosen_path(self.dialog.path_buffer@),
    {
        self.dialog.selected_path()
    }

    /// Append pasted text to the path (ignored while idle).
    pub fn handle_paste(&mut self, text: &str)
        ensures
            old(self).dialog.mode == FileOpsMode::Idle ==> final(self).dialog == old(self).dialog,
            old(self).dialog.mode != FileOpsMode::Idle ==> final(self).dialog.path_buffer@ == old(self).dialog.path_buffer@ + text@,
            final(self).recent_files@ == old(self).recent_files@,
    {
        self.dialog.handle_paste(text);
    }

    /// Start opening a font, offering `recent_files` by number.
    pub fn enter_open(&mut self, recent_files: &[String])
        ensures
            final(self).dialog.mode == FileOpsMode::Open,
            final(self).dialog.path_buffer@.len() == 0,
            strings_view(final(self).dialog.recent_files_for_display@) == strings_view(recent_files@),
            final(self).recent_files@ == old(self).recent_files@,
    {
        self.dialog.enter_open(recent_files);
    }

    /// Start saving, from `current` when there is one.
    pub fn enter_save_as(&mut self, current: Option<&str>)
        ensures
            final(self).dialog.mode == FileOpsMode::SaveAs,
            final(self).dialog.path_buffer@ == (match current {
                Some(c) => c@,
                None => Seq::<char>::empty(),
            }),
            final(self).recent_files@ == old(self).recent_files@,
    {
        self.dialog.enter_save_as(current);
    }

    /// A key while the dialog is busy (`None` while idle): the dialog takes
    /// it, and when it becomes idle the save or open it was doing is
    /// requested.
    pub fn handle_key(&mut self, code: KeyCode, path_is_dir: bool) -> (r: Option<FileOpsReply>)
        requires
            code == KeyCode::Tab && old(self).dialog.directory_entries@.len() > 0 ==> old(self).dialog.selected_entry < old(self).dialog.directory_entries@.len(),
        ensures
            old(self).dialog.mode == FileOpsMode::Idle ==> r is None && final(self).dialog == old(self).dialog,
            old(self).dialog.mode != FileOpsMode::Idle ==> {
                &&& exists|used: bool| file_key_post(old(self).dialog, final(self).dialog, code, path_is_dir, used)
                &&& r == Some(if final(self).dialog.mode != FileOpsMode::Idle {
                    FileOpsReply::Handled
                } else if old(self).dialog.mode == FileOpsMode::SaveAs {
                    FileOpsReply::SaveAsRequested
                } else {
                    FileOpsReply::OpenRequested
                })
            },
            final(self).recent_files@ == old(self).recent_files@,
    {
        if self.dialog.mode == FileOpsMode::Idle {
            return None;
        }
        let prev = self.dialog.mode;
        let used = self.dialog.handle_key(code, path_is_dir);
        if self.dialog.mode == FileOpsMode::Idle {
            return match prev {
                FileOpsMode::SaveAs => Some(FileOpsReply::SaveAsRequested),
                _ => Some(FileOpsReply::OpenRequested),
            };
        }
        Some(FileOpsReply::Handled)
    }
}

} // verus!
