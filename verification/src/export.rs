use vstd::prelude::*;

use crate::browse::{browse_dir, joined_path, listed_names, path_join, shown_names, sorted_strings, unreadable_message, DirEntry};
use crate::keys::{is_control, is_control_char, KeyCode};
use crate::text::{copy_string, pop_char, push_char, push_str, strings_view};

verus! {

/// The image formats the export dialog offers.
#[derive(Debug, Clone, Copy, PartialEq, Eq, Structural)]
pub enum ExportMode {
    Png,
    Txt,
    Gif,
}

/// The file formats an export can be written in.
#[derive(Debug, Clone, Copy, PartialEq, Eq, Structural)]
pub enum ExportFormat {
    Png,
    Txt,
    Gif,
}

/// Why an export failed.
#[derive(Debug, Clone, PartialEq, Eq)]
pub enum ExportError {
    /// The request itself cannot be exported (such as a missing path).
    InvalidCells(String),
    /// Encoding the image failed.
    Encode(String),
    /// Writing the file failed.
    IoError(String),
}

impl ExportMode {
    pub open spec fn spec_label(self) -> Seq<char> {
        match self {
            ExportMode::Png => "PNG"@,
            ExportMode::Txt => "TXT"@,
            ExportMode::Gif => "GIF"@,
        }
    }

    pub open spec fn spec_cycle(self) -> ExportMode {
        match self {
            ExportMode::Png => ExportMode::Gif,
            ExportMode::Gif => ExportMode::Txt,
            ExportMode::Txt => ExportMode::Png,
        }
    }

    pub open spec fn spec_extension(self) -> Seq<char> {
        match self {
            ExportMode::Png => ".png"@,
            ExportMode::Txt => ".txt"@,
            ExportMode::Gif => ".gif"@,
        }
    }

    /// The name shown for the format.
    pub fn label(&self) -> (r: &'static str)
        ensures
            r@ == self.spec_label(),
    {
        match self {
            ExportMode::Png => "PNG",
            ExportMode::Txt => "TXT",
            ExportMode::Gif => "GIF",
        }
    }

    /// The next format: PNG, GIF, TXT, and round again.
    pub fn cycle(&self) -> (m: ExportMode)
        ensures
            m == self.spec_cycle(),
    {
        match self {
            ExportMode::Png => ExportMode::Gif,
            ExportMode::Gif => ExportMode::Txt,
            ExportMode::Txt => ExportMode::Png,
        }
    }

    /// The file format written for this choice.
    pub fn to_export_format(&self) -> (f: ExportFormat)
        ensures
            f == (match self {
                ExportMode::Png => ExportFormat::Png,
                ExportMode::Txt => ExportFormat::Txt,
                ExportMode::Gif => ExportFormat::Gif,
            }),
    {
        match self {
            ExportMode::Png => ExportFormat::Png,
            ExportMode::Txt => ExportFormat::Txt,
            ExportMode::Gif => ExportFormat::Gif,
        }
    }

    /// The file name extension of the format, with its dot.
    pub fn extension(&self) -> (r: &'static str)
        ensures
            r@ == self.spec_extension(),
    {
        match self {
            ExportMode::Png => ".png",
            ExportMode::Txt => ".txt",
            ExportMode::Gif => ".gif",
        }
    }
}

/// The export dialog: format, target path, glyph scale and a listing of the
/// target's directory. `refresh_pending` asks the caller to list the
/// directory again (see `apply_listing`).
pub struct ExportDialog {
    pub active: bool,
    pub format: ExportMode,
    pub path_buffer: String,
    pub font_size: u8,
    pub error_message: String,
    pub selected_entry: usize,
    pub directory_entries: Vec<String>,
    pub refresh_pending: bool,
}

/// The listing was dropped and a new one asked for.
pub open spec fn export_refresh_requested(d: ExportDialog) -> bool {
    &&& d.directory_entries@.len() == 0
    &&& d.selected_entry == 0
    &&& d.refresh_pending
}

/// The dialog after a key; `path_is_dir` tells whether the typed path names
/// a directory (it decides where a chosen entry is joined).
pub open spec fn export_key_post(pre: ExportDialog, post: ExportDialog, code: KeyCode, path_is_dir: bool, used: bool) -> bool {
    let n = pre.directory_entries@.len();
    let keep = post.active == pre.active && post.format == pre.format && post.font_size == pre.font_size;
    let moved = used && keep && post.path_buffer == pre.path_buffer && post.error_message == pre.error_message
        && post.directory_entries == pre.directory_entries && post.refresh_pending == pre.refresh_pending;
    match code {
        KeyCode::Char(c) => if c == 'T' || c == 't' {
            used && post == (ExportDialog { format: pre.format.spec_cycle(), ..pre })
        } else if !is_control_char(c) {
            used && keep && post.path_buffer@ == pre.path_buffer@.push(c) && post.error_message@.len() == 0 && export_refresh_requested(post)
        } else {
            !used && post == pre
        },
        KeyCode::Backspace => used && keep && post.path_buffer@ == crate::font_editor::popped(pre.path_buffer@) && post.error_message@.len() == 0 && export_refresh_requested(post),
        KeyCode::Up => moved && post.selected_entry == crate::file_ops::selection_up(n, pre.selected_entry),
        KeyCode::Down => moved && post.selected_entry == crate::file_ops::selection_down(n, pre.selected_entry),
        KeyCode::Tab => used && keep && if n > 0 && pre.selected_entry < n {
            &&& post.path_buffer@ == joined_path(browse_dir(pre.path_buffer@, path_is_dir), pre.directory_entries@[pre.selected_entry as int]@)
            &&& post.error_message@.len() == 0
            &&& export_refresh_requested(post)
        } else {
            post == pre
        },
        KeyCode::Enter => used && post == (ExportDialog { active: false, ..pre }),
        KeyCode::Esc => used && !post.active && post.path_buffer@.len() == 0 && post.directory_entries@.len() == 0 && post.selected_entry == 0 && post.error_message@.len() == 0 && !post.refresh_pending && post.format == pre.format && post.font_size == pre.font_size,
        _ => !used && post == pre,
    }
}

impl ExportDialog {
    /// A closed dialog for PNG at scale 2, with nothing typed or listed.
    pub fn new() -> (d: ExportDialog)
        ensures
            !d.active,
            d.format == ExportMode::Png,
            d.path_buffer@.len() == 0,
            d.font_size == 2,
            d.error_message@.len() == 0,
            d.selected_entry == 0,
            d.directory_entries@.len() == 0,
            !d.refresh_pending,
    {
        ExportDialog {
            active: false,
            format: ExportMode::Png,
            path_buffer: String::new(),
            font_size: 2,
            error_message: String::new(),
            selected_entry: 0,
            directory_entries: Vec::new(),
            refresh_pending: false,
        }
    }

    fn request_refresh(&mut self)
        ensures
            export_refresh_requested(*final(self)),
            final(self).active == old(self).active,
            final(self).format == old(self).format,
            final(self).font_size == old(self).font_size,
            final(self).path_buffer == old(self).path_buffer,
            final(self).error_message == old(self).error_message,
    {
        self.directory_entries = Vec::new();
        self.selected_entry = 0;
        self.refresh_pending = true;
    }

    /// Open the dialog for `mode` with the path `export` plus its
    /// extension, and ask for the listing.
    pub fn enter_export(&mut self, mode: ExportMode)
        ensures
            final(self).active,
            final(self).format == mode,
            final(self).path_buffer@ == "export"@ + mode.spec_extension(),
            final(self).error_message@.len() == 0,
            export_refresh_requested(*final(self)),
            final(self).font_size == old(self).font_size,
    {
        self.active = true;
        self.format = mode;
        let mut p = String::new();
        push_str(&mut p, "export");
        push_str(&mut p, mode.extension());
        self.path_buffer = p;
        self.error_message = String::new();
        self.selected_entry = 0;
        self.request_refresh();
    }

    /// Close the dialog and forget its path and listing.
    pub fn close(&mut self)
        ensures
            !final(self).active,
            final(self).path_buffer@.len() == 0,
            final(self).directory_entries@.len() == 0,
            final(self).selected_entry == 0,
            final(self).error_message@.len() == 0,
            !final(self).refresh_pending,
            final(self).format == old(self).format,
            final(self).font_size == old(self).font_size,
    {
        self.active = false;
        self.path_buffer = String::new();
        self.directory_entries = Vec::new();
        self.selected_entry = 0;
        self.error_message = String::new();
        self.refresh_pending = false;
    }

    /// The directory to list for the typed path.
    pub fn listing_dir(&self, path_is_dir: bool) -> (r: String)
        ensures
            r@ == browse_dir(self.path_buffer@, path_is_dir),
    {
        crate::browse::browse_directory(self.path_buffer.as_str(), path_is_dir)
    }

    /// Take the entries read from the listed directory: directories and
    /// fonts, never dotfiles, sorted.
    pub fn apply_listing(&mut self, entries: &Vec<DirEntry>)
        ensures
            sorted_strings(strings_view(final(self).directory_entries@)),
            strings_view(final(self).directory_entries@).to_multiset() == shown_names(entries@, true).to_multiset(),
            final(self).selected_entry == 0,
            !final(self).refresh_pending,
            final(self).active == old(self).active,
            final(self).format == old(self).format,
            final(self).path_buffer == old(self).path_buffer,
            final(self).error_message == old(self).error_message,
            final(self).font_size == old(self).font_size,
    {
        self.directory_entries = listed_names(entries, true);
        self.selected_entry = 0;
        self.refresh_pending = false;
    }

    /// The directory `dir` could not be read.
    pub fn listing_failed(&mut self, dir: &str)
        ensures
            final(self).error_message@ == "Cannot read directory: "@ + dir@,
            final(self).directory_entries@.len() == 0,
            final(self).selected_entry == 0,
            !final(self).refresh_pending,
            final(self).active == old(self).active,
            final(self).format == old(self).format,
            final(self).path_buffer == old(self).path_buffer,
            final(self).font_size == old(self).font_size,
    {
        self.directory_entries = Vec::new();
        self.selected_entry = 0;
        self.error_message = unreadable_message(dir);
        self.refresh_pending = false;
    }

    /// Put the selected entry, joined to the listed directory, in the path;
    /// nothing happens when no entry is selected.
    pub fn select_entry(&mut self, path_is_dir: bool)
        ensures
            old(self).selected_entry < old(self).directory_entries@.len() ==> {
                &&& final(self).path_buffer@ == joined_path(browse_dir(old(self).path_buffer@, path_is_dir), old(self).directory_entries@[old(self).selected_entry as int]@)
                &&& final(self).error_message@.len() == 0
                &&& export_refresh_requested(*final(self))
                &&& final(self).active == old(self).active
                &&& final(self).format == old(self).format
                &&& final(self).font_size == old(self).font_size
            },
            old(self).selected_entry >= old(self).directory_entries@.len() ==> *final(self) == *old(self),
    {
        if self.selected_entry >= self.directory_entries.len() {
            return;
        }
        let parent = crate::browse::browse_directory(self.path_buffer.as_str(), path_is_dir);
        let joined = path_join(parent.as_str(), self.directory_entries[self.selected_entry].as_str());
        self.path_buffer = joined;
        self.selected_entry = 0;
        self.error_message = String::new();
        self.request_refresh();
    }

    /// A key: see `export_key_post`.
    pub fn handle_key(&mut self, code: KeyCode, path_is_dir: bool) -> (used: bool)
        ensures
            export_key_post(*old(self), *final(self), code, path_is_dir, used),
    {
        match code {
            KeyCode::Char(c) => {
                if c == 'T' || c == 't' {
                    self.format = self.format.cycle();
                    true
                } else if !is_control(c) {
                    push_char(&mut self.path_buffer, c);
                    self.error_message = String::new();
                    self.selected_entry = 0;
                    self.request_refresh();
                    true
                } else {
                    false
                }
            },
            KeyCode::Backspace => {
                pop_char(&mut self.path_buffer);
                self.error_message = String::new();
                self.selected_entry = 0;
                self.request_refresh();
                true
            },
            KeyCode::Up => {
                if self.directory_entries.len() > 0 && self.selected_entry > 0 {
                    self.selected_entry = self.selected_entry - 1;
                }
                true
            },
            KeyCode::Down => {
                let n = self.directory_entries.len();
                if n > 0 && self.selected_entry < n - 1 {
                    self.selected_entry = self.selected_entry + 1;
                }
                true
            },
            KeyCode::Tab => {
                if self.directory_entries.len() > 0 {
                    self.select_entry(path_is_dir);
                }
                true
            },
            KeyCode::Enter => {
                self.active = false;
                true
            },
            KeyCode::Esc => {
                self.close();
                true
            },
            _ => false,
        }
    }

    /// The file an export writes to: the typed path, refused when empty.
    pub fn export_path(&self) -> (r: Result<String, ExportError>)
        ensures
            self.path_buffer@.len() == 0 ==> (r matches Err(ExportError::InvalidCells(m)) && m@ == "no path specified"@),
            self.path_buffer@.len() > 0 ==> (r matches Ok(p) && p@ == self.path_buffer@),
    {
        if self.path_buffer.unicode_len() == 0 {
            return Err(ExportError::InvalidCells(copy_string("no path specified")));
        }
        Ok(copy_string(self.path_buffer.as_str()))
    }

    /// Finish an export after the file was written (`Ok`) or writing failed
    /// with the given message.
    pub fn finish_export(&mut self, written: Result<(), String>) -> (r: Result<(), ExportError>)
        ensures
            written is Ok ==> r is Ok && final(self).error_message@.len() == 0
                && *final(self) == (ExportDialog { error_message: final(self).error_message, ..*old(self) }),
            written matches Err(e) ==> (r matches Err(ExportError::IoError(m)) && m@ == e@) && *final(self) == *old(self),
    {
        match written {
            Ok(()) => {
                self.error_message = String::new();
                Ok(())
            },
            Err(e) => Err(ExportError::IoError(e)),
        }
    }
}

impl Default for ExportDialog {
    fn default() -> (d: ExportDialog)
        ensures
            !d.active,
            d.format == ExportMode::Png,
            d.font_size == 2,
    {
        ExportDialog::new()
    }
}


/// Cycling the export format three times comes back to the start, passing
/// through every format once.
pub proof fn law_export_mode_cycle(m: ExportMode)
    ensures
        m.spec_cycle().spec_cycle().spec_cycle() == m,
        m.spec_cycle() != m,
        m.spec_cycle().spec_cycle() != m,
{
}

} // verus!
