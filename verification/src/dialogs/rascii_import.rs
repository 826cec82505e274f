use vstd::prelude::*;

use crate::canvas::{CanvasCell, Color};
use crate::browse::{
    enter_step, enter_step_of, entry_path, has_suffix, selected_entry_path, sorted_strings, DirEntry, EnterStep,
    PathFacts,
};
use crate::font_editor::popped;
use crate::keys::{is_control, is_control_char, KeyCode};
use crate::text::{copy_string, lowercase, pop_char, push_char, push_str, strings_view, to_lowercase, trim, trimmed};

verus! {

/// How many character sets the image import offers.
pub const CHARSET_COUNT: usize = 5;

/// The colours of the imported cells.
#[derive(Debug, Clone, Copy, PartialEq, Eq, Structural)]
pub enum ColorMode {
    Mono,
    Ansi256,
    Truecolor,
}

impl ColorMode {
    pub open spec fn spec_label(self) -> Seq<char> {
        match self {
            ColorMode::Mono => "Mono"@,
            ColorMode::Ansi256 => "256"@,
            ColorMode::Truecolor => "Truecolor"@,
        }
    }

    pub open spec fn spec_cycle(self) -> ColorMode {
        match self {
            ColorMode::Mono => ColorMode::Ansi256,
            ColorMode::Ansi256 => ColorMode::Truecolor,
            ColorMode::Truecolor => ColorMode::Mono,
        }
    }

    /// The name shown for the mode.
    pub fn label(&self) -> (r: &'static str)
        ensures
            r@ == self.spec_label(),
    {
        match self {
            ColorMode::Mono => "Mono",
            ColorMode::Ansi256 => "256",
            ColorMode::Truecolor => "Truecolor",
        }
    }

    /// The next mode: mono, 256 colours, true colour, and round again.
    pub fn cycle(&self) -> (m: ColorMode)
        ensures
            m == self.spec_cycle(),
    {
        match self {
            ColorMode::Mono => ColorMode::Ansi256,
            ColorMode::Ansi256 => ColorMode::Truecolor,
            ColorMode::Truecolor => ColorMode::Mono,
        }
    }
}

/// The level (0 to 5) of a channel in the 6x6x6 colour cube.
pub open spec fn cube_level(v: u8) -> int {
    let l = v as int * 5 / 255;
    if l > 5 { 5 } else { l }
}

/// The 256-colour palette entry nearest below an RGB colour in the colour
/// cube: 16 + 36 r + 6 g + b.
pub open spec fn cube_index(r: u8, g: u8, b: u8) -> int {
    16 + 36 * cube_level(r) + 6 * cube_level(g) + cube_level(b)
}

/// The 256-colour palette colour for an RGB colour.
pub fn quantize_256(r: u8, g: u8, b: u8) -> (c: Color)
    ensures
        c == Color::Indexed(cube_index(r, g, b) as u8),
{
    let ri = (r as u16 * 5 / 255) as u8;
    let gi = (g as u16 * 5 / 255) as u8;
    let bi = (b as u16 * 5 / 255) as u8;
    let ri = if ri > 5 { 5 } else { ri };
    let gi = if gi > 5 { 5 } else { gi };
    let bi = if bi > 5 { 5 } else { bi };
    Color::Indexed(16 + ri * 36 + gi * 6 + bi)
}

/// The file name extensions the image import accepts.
pub open spec fn image_extension(i: int) -> Seq<char> {
    if i == 0 {
        ".png"@
    } else if i == 1 {
        ".jpg"@
    } else if i == 2 {
        ".jpeg"@
    } else if i == 3 {
        ".bmp"@
    } else if i == 4 {
        ".webp"@
    } else {
        ".gif"@
    }
}

/// Whether a file name, lower-cased, ends in an image extension.
pub open spec fn image_file_name(name: Seq<char>) -> bool {
    exists|i: int| 0 <= i < 6 && has_suffix(lowercase(name), #[trigger] image_extension(i))
}

/// Whether `name` is an image the import can read, by its extension (in
/// any case).
pub fn is_image_file(name: &str) -> (b: bool)
    ensures
        b == image_file_name(name@),
{
    let lower = to_lowercase(name);
    let l = lower.as_str();
    let r = crate::browse::ends_with(l, ".png") || crate::browse::ends_with(l, ".jpg")
        || crate::browse::ends_with(l, ".jpeg") || crate::browse::ends_with(l, ".bmp")
        || crate::browse::ends_with(l, ".webp") || crate::browse::ends_with(l, ".gif");
    proof {
        if r {
            if has_suffix(lower@, ".png"@) {
                assert(has_suffix(lowercase(name@), image_extension(0)));
            } else if has_suffix(lower@, ".jpg"@) {
                assert(has_suffix(lowercase(name@), image_extension(1)));
            } else if has_suffix(lower@, ".jpeg"@) {
                assert(has_suffix(lowercase(name@), image_extension(2)));
            } else if has_suffix(lower@, ".bmp"@) {
                assert(has_suffix(lowercase(name@), image_extension(3)));
            } else if has_suffix(lower@, ".webp"@) {
                assert(has_suffix(lowercase(name@), image_extension(4)));
            } else {
                assert(has_suffix(lowercase(name@), image_extension(5)));
            }
        }
    }
    r
}

/// The image import dialog's options: character set, output width, colour
/// mode, and the preview built from them.
pub struct RasciiImportDialog {
    pub active: bool,
    pub path_buffer: String,
    pub directory_entries: Vec<String>,
    pub selected_entry: usize,
    pub error_message: String,
    pub charset_index: usize,
    pub output_width: u32,
    pub color_mode: ColorMode,
    pub preview_cells: Option<Vec<Vec<CanvasCell>>>,
    pub preview_dirty: bool,
    pub confirmed: bool,
    pub hide_dotfiles: bool,
    pub refresh_pending: bool,
    /// The chosen image passed the checks on its name and waits to be read
    /// (see `finish_load`).
    pub load_pending: bool,
    /// An option changed: the image is to be read again and the preview
    /// rebuilt (see `apply_preview`).
    pub regenerate_pending: bool,
}

impl RasciiImportDialog {
    /// A closed dialog: first character set, 80 columns, mono, no preview.
    pub fn new() -> (d: RasciiImportDialog)
        ensures
            !d.active,
            d.path_buffer@.len() == 0,
            d.directory_entries@.len() == 0,
            d.selected_entry == 0,
            d.error_message@.len() == 0,
            d.charset_index == 0,
            d.output_width == 80,
            d.color_mode == ColorMode::Mono,
            d.preview_cells.is_none(),
            !d.preview_dirty,
            !d.confirmed,
            d.hide_dotfiles,
            !d.refresh_pending,
            !d.load_pending,
            !d.regenerate_pending,
    {
        RasciiImportDialog {
            active: false,
            path_buffer: String::new(),
            directory_entries: Vec::new(),
            selected_entry: 0,
            error_message: String::new(),
            charset_index: 0,
            output_width: 80,
            color_mode: ColorMode::Mono,
            preview_cells: None,
            preview_dirty: false,
            confirmed: false,
            hide_dotfiles: true,
            refresh_pending: false,
            load_pending: false,
            regenerate_pending: false,
        }
    }

    /// Open the dialog with the default options and ask for the listing of
    /// the working directory.
    pub fn enter_import(&mut self)
        ensures
            final(self).active,
            final(self).path_buffer@.len() == 0,
            final(self).selected_entry == 0,
            final(self).directory_entries@.len() == 0,
            final(self).error_message@.len() == 0,
            final(self).charset_index == 0,
            final(self).output_width == 80,
            final(self).color_mode == ColorMode::Mono,
            final(self).preview_cells.is_none(),
            !final(self).preview_dirty,
            !final(self).confirmed,
            final(self).refresh_pending,
            !final(self).load_pending,
            !final(self).regenerate_pending,
            final(self).hide_dotfiles == old(self).hide_dotfiles,
    {
        self.active = true;
        self.path_buffer = String::new();
        self.selected_entry = 0;
        self.error_message = String::new();
        self.charset_index = 0;
        self.output_width = 80;
        self.color_mode = ColorMode::Mono;
        self.preview_cells = None;
        self.preview_dirty = false;
        self.confirmed = false;
        self.directory_entries = Vec::new();
        self.refresh_pending = true;
        self.load_pending = false;
        self.regenerate_pending = false;
    }

    /// Close the dialog, dropping the path, listing and preview.
    pub fn close(&mut self)
        ensures
            !final(self).active,
            final(self).path_buffer@.len() == 0,
            final(self).directory_entries@.len() == 0,
            final(self).selected_entry == 0,
            final(self).error_message@.len() == 0,
            final(self).preview_cells.is_none(),
            !final(self).preview_dirty,
            !final(self).confirmed,
            !final(self).refresh_pending,
            !final(self).load_pending,
            !final(self).regenerate_pending,
            final(self).charset_index == old(self).charset_index,
            final(self).output_width == old(self).output_width,
            final(self).color_mode == old(self).color_mode,
            final(self).hide_dotfiles == old(self).hide_dotfiles,
    {
        self.active = false;
        self.path_buffer = String::new();
        self.directory_entries = Vec::new();
        self.selected_entry = 0;
        self.error_message = String::new();
        self.preview_cells = None;
        self.preview_dirty = false;
        self.confirmed = false;
        self.refresh_pending = false;
        self.load_pending = false;
        self.regenerate_pending = false;
    }

    /// The next character set, wrapping around; the preview is stale.
    pub fn cycle_charset(&mut self)
        requires
            old(self).charset_index < usize::MAX,
        ensures
            final(self).charset_index == (old(self).charset_index + 1) % (CHARSET_COUNT as int),
            *final(self) == (RasciiImportDialog { charset_index: final(self).charset_index, preview_dirty: true, ..*old(self) }),
    {
        self.charset_index = (self.charset_index + 1) % CHARSET_COUNT;
        self.preview_dirty = true;
    }

    /// The next colour mode; the preview is stale.
    pub fn cycle_color_mode(&mut self)
        ensures
            *final(self) == (RasciiImportDialog { color_mode: old(self).color_mode.spec_cycle(), preview_dirty: true, ..*old(self) }),
    {
        self.color_mode = self.color_mode.cycle();
        self.preview_dirty = true;
    }

    /// Four columns wider, at most 500; the preview is stale.
    pub fn width_up(&mut self)
        requires
            old(self).output_width + 4 <= u32::MAX,
        ensures
            final(self).output_width == (if old(self).output_width + 4 < 500 { old(self).output_width + 4 } else { 500 }),
            *final(self) == (RasciiImportDialog { output_width: final(self).output_width, preview_dirty: true, ..*old(self) }),
    {
        let w = self.output_width + 4;
        self.output_width = if w < 500 {
            w
        } else {
            500
        };
        self.preview_dirty = true;
    }

    /// Four columns narrower, at least 8; the preview is stale.
    pub fn width_down(&mut self)
        ensures
            final(self).output_width == (if old(self).output_width >= 12 { old(self).output_width - 4 } else { 8 }),
            *final(self) == (RasciiImportDialog { output_width: final(self).output_width, preview_dirty: true, ..*old(self) }),
    {
        let w = if self.output_width >= 4 {
            self.output_width - 4
        } else {
            0
        };
        self.output_width = if w > 8 {
            w
        } else {
            8
        };
        self.preview_dirty = true;
    }
}


/// A directory entry the image browser lists: a directory or an image file,
/// not hidden.
pub open spec fn image_entry(name: Seq<char>, is_dir: bool, hide_dotfiles: bool) -> bool {
    &&& !(hide_dotfiles && name.len() > 0 && name[0] == '.')
    &&& (is_dir || image_file_name(name))
}

/// The names of the entries the image browser lists, in the order given.
pub open spec fn image_names(entries: Seq<DirEntry>, hide_dotfiles: bool) -> Seq<Seq<char>>
    decreases entries.len(),
{
    if entries.len() == 0 {
        Seq::empty()
    } else {
        let rest = image_names(entries.drop_last(), hide_dotfiles);
        let e = entries.last();
        if image_entry(e.name@, e.is_dir, hide_dotfiles) {
            rest.push(e.name@)
        } else {
            rest
        }
    }
}

impl RasciiImportDialog {
    /// Take the entries read from the listed directory: directories and
    /// images, without dotfiles when they are hidden, sorted.
    pub fn apply_listing(&mut self, entries: &Vec<DirEntry>)
        ensures
            sorted_strings(strings_view(final(self).directory_entries@)),
            strings_view(final(self).directory_entries@).to_multiset() == image_names(entries@, old(self).hide_dotfiles).to_multiset(),
            *final(self) == (RasciiImportDialog {
                directory_entries: final(self).directory_entries,
                selected_entry: 0,
                refresh_pending: false,
                ..*old(self)
            }),
    {
        let mut names: Vec<String> = Vec::new();
        let mut i: usize = 0;
        while i < entries.len()
            invariant
                i <= entries@.len(),
                strings_view(names@) == image_names(entries@.take(i as int), old(self).hide_dotfiles),
                self.hide_dotfiles == old(self).hide_dotfiles,
            decreases entries@.len() - i,
        {
            assert(entries@.take(i + 1).drop_last() =~= entries@.take(i as int));
            assert(entries@.take(i + 1).last() == entries@[i as int]);
            let e = &entries[i];
            let hidden = self.hide_dotfiles && e.name.unicode_len() > 0 && e.name.get_char(0) == '.';
            if !hidden && (e.is_dir || is_image_file(e.name.as_str())) {
                let ghost prev = names@;
                names.push(crate::text::copy_string(e.name.as_str()));
                assert(strings_view(names@) =~= strings_view(prev).push(e.name@));
            }
            i = i + 1;
        }
        assert(entries@.take(i as int) =~= entries@);
        self.directory_entries = crate::browse::sorted_names(&names);
        self.selected_entry = 0;
        self.refresh_pending = false;
    }
}

/// The listing was dropped and a new one asked for.
pub open spec fn image_refresh_requested(d: RasciiImportDialog) -> bool {
    &&& d.directory_entries@.len() == 0
    &&& d.selected_entry == 0
    &&& d.refresh_pending
}

/// The selection names a listed entry, or nothing is listed.
pub open spec fn image_selection_ok(d: RasciiImportDialog) -> bool {
    d.directory_entries@.len() == 0 || d.selected_entry < d.directory_entries@.len()
}

/// After choosing `path` as the image: an empty name or one without an
/// image extension is refused with a message, any other is to be read
/// (`load_pending`).
pub open spec fn image_load_started(pre: RasciiImportDialog, post: RasciiImportDialog, path: Seq<char>) -> bool {
    let t = trimmed(path);
    &&& post.path_buffer@ == path
    &&& if t.len() == 0 {
        &&& post == (RasciiImportDialog { path_buffer: post.path_buffer, error_message: post.error_message, ..pre })
        &&& post.error_message@ == "No file selected"@
    } else if !image_file_name(t) {
        &&& post == (RasciiImportDialog { path_buffer: post.path_buffer, error_message: post.error_message, ..pre })
        &&& post.error_message@ == "Select an image file (.png, .jpg, .bmp, .webp, .gif)"@
    } else {
        post == (RasciiImportDialog { path_buffer: post.path_buffer, load_pending: true, ..pre })
    }
}

/// A key while the file browser shows (no preview yet); `facts` tells what
/// the file system says of the paths involved.
pub open spec fn image_browse_key_post(pre: RasciiImportDialog, post: RasciiImportDialog, code: KeyCode, facts: PathFacts, used: bool) -> bool {
    let n = pre.directory_entries@.len();
    let relisted = post.error_message@.len() == 0 && image_refresh_requested(post)
        && post == (RasciiImportDialog {
            path_buffer: post.path_buffer,
            error_message: post.error_message,
            directory_entries: post.directory_entries,
            selected_entry: post.selected_entry,
            refresh_pending: post.refresh_pending,
            ..pre
        });
    let moved = post == (RasciiImportDialog { selected_entry: post.selected_entry, ..pre });
    let chosen = entry_path(pre.path_buffer@, strings_view(pre.directory_entries@), pre.selected_entry as int, facts.path_is_dir);
    match code {
        KeyCode::Char(c) => if !is_control_char(c) {
            used && relisted && post.path_buffer@ == pre.path_buffer@.push(c)
        } else {
            !used && post == pre
        },
        KeyCode::Backspace => used && relisted && post.path_buffer@ == popped(pre.path_buffer@),
        KeyCode::Up => used && moved && post.selected_entry == crate::file_ops::selection_up(n, pre.selected_entry),
        KeyCode::Down => used && moved && post.selected_entry == crate::file_ops::selection_down(n, pre.selected_entry),
        KeyCode::Tab => used && if n > 0 && pre.selected_entry < n {
            relisted && post.path_buffer@ == chosen
        } else {
            post == pre
        },
        KeyCode::Enter => used && match enter_step(pre.path_buffer@, n, facts) {
            EnterStep::Relist => relisted && post.path_buffer == pre.path_buffer,
            EnterStep::OpenTyped => image_load_started(pre, post, pre.path_buffer@),
            EnterStep::Descend => relisted && post.path_buffer@ == chosen,
            EnterStep::OpenEntry => if image_file_name(pre.directory_entries@[pre.selected_entry as int]@) {
                image_load_started(pre, post, chosen)
            } else {
                post == pre
            },
            EnterStep::Stay => post == pre,
        },
        KeyCode::Esc => used && !post.active && post.path_buffer@.len() == 0 && post.directory_entries@.len() == 0
            && post.selected_entry == 0 && post.error_message@.len() == 0 && post.preview_cells is None
            && !post.preview_dirty && !post.confirmed && !post.refresh_pending && !post.load_pending
            && !post.regenerate_pending && post.charset_index == pre.charset_index
            && post.output_width == pre.output_width && post.color_mode == pre.color_mode
            && post.hide_dotfiles == pre.hide_dotfiles,
        _ => !used && post == pre,
    }
}

/// An option changed in `mid`: the preview is rebuilt when a file is typed.
pub open spec fn image_option_changed(pre: RasciiImportDialog, mid: RasciiImportDialog, post: RasciiImportDialog) -> bool {
    post == (RasciiImportDialog {
        regenerate_pending: if trimmed(pre.path_buffer@).len() > 0 { true } else { pre.regenerate_pending },
        ..mid
    })
}

/// A key while the preview shows.
pub open spec fn image_options_key_post(pre: RasciiImportDialog, post: RasciiImportDialog, code: KeyCode, used: bool) -> bool {
    let charset = RasciiImportDialog {
        charset_index: ((pre.charset_index + 1) % (CHARSET_COUNT as int)) as usize,
        preview_dirty: true,
        ..pre
    };
    let color = RasciiImportDialog { color_mode: pre.color_mode.spec_cycle(), preview_dirty: true, ..pre };
    let wider = RasciiImportDialog {
        output_width: if pre.output_width + 4 < 500 { (pre.output_width + 4) as u32 } else { 500 },
        preview_dirty: true,
        ..pre
    };
    let narrower = RasciiImportDialog {
        output_width: if pre.output_width >= 12 { (pre.output_width - 4) as u32 } else { 8 },
        preview_dirty: true,
        ..pre
    };
    match code {
        KeyCode::Enter => used && post == (RasciiImportDialog { confirmed: true, active: false, ..pre }),
        KeyCode::Esc => used && post.error_message@.len() == 0 && post == (RasciiImportDialog {
            preview_cells: None,
            preview_dirty: false,
            confirmed: false,
            error_message: post.error_message,
            ..pre
        }),
        KeyCode::Char(c) => if c == 'C' || c == 'c' {
            used && image_option_changed(pre, charset, post)
        } else if c == 'T' || c == 't' {
            used && image_option_changed(pre, color, post)
        } else if c == '+' || c == '=' {
            used && image_option_changed(pre, wider, post)
        } else if c == '-' || c == '_' {
            used && image_option_changed(pre, narrower, post)
        } else {
            !used && post == pre
        },
        KeyCode::Up => used && image_option_changed(pre, wider, post),
        KeyCode::Down => used && image_option_changed(pre, narrower, post),
        _ => !used && post == pre,
    }
}

impl RasciiImportDialog {
    fn request_refresh(&mut self)
        ensures
            image_refresh_requested(*final(self)),
            *final(self) == (RasciiImportDialog {
                directory_entries: final(self).directory_entries,
                selected_entry: final(self).selected_entry,
                refresh_pending: final(self).refresh_pending,
                ..*old(self)
            }),
    {
        self.directory_entries = Vec::new();
        self.selected_entry = 0;
        self.refresh_pending = true;
    }

    /// The path of the selected entry, joined to the listed directory
    /// (`path_is_dir` tells whether the typed path names a directory);
    /// `None` when the selection is past the listing.
    pub fn entry_path(&self, path_is_dir: bool) -> (r: Option<String>)
        ensures
            self.selected_entry < self.directory_entries@.len() ==> (r matches Some(p) && p@ == entry_path(
                self.path_buffer@,
                strings_view(self.directory_entries@),
                self.selected_entry as int,
                path_is_dir,
            )),
            self.selected_entry >= self.directory_entries@.len() ==> r is None,
    {
        selected_entry_path(self.path_buffer.as_str(), &self.directory_entries, self.selected_entry, path_is_dir)
    }

    /// Put the selected entry, joined to the listed directory, in the path
    /// and list it; nothing happens when the selection is past the listing.
    fn select_entry(&mut self, path_is_dir: bool)
        ensures
            old(self).selected_entry < old(self).directory_entries@.len() ==> {
                &&& final(self).error_message@.len() == 0
                &&& image_refresh_requested(*final(self))
                &&& final(self).path_buffer@ == entry_path(
                    old(self).path_buffer@,
                    strings_view(old(self).directory_entries@),
                    old(self).selected_entry as int,
                    path_is_dir,
                )
                &&& *final(self) == (RasciiImportDialog {
                    path_buffer: final(self).path_buffer,
                    error_message: final(self).error_message,
                    directory_entries: final(self).directory_entries,
                    selected_entry: final(self).selected_entry,
                    refresh_pending: final(self).refresh_pending,
                    ..*old(self)
                })
            },
            old(self).selected_entry >= old(self).directory_entries@.len() ==> *final(self) == *old(self),
    {
        match self.entry_path(path_is_dir) {
            Some(p) => {
                self.path_buffer = p;
                self.selected_entry = 0;
                self.error_message = String::new();
                self.request_refresh();
            },
            None => {},
        }
    }

    /// Take `path` as the chosen image: see `image_load_started`.
    fn start_load(&mut self, path: String)
        ensures
            image_load_started(*old(self), *final(self), path@),
    {
        proof {
            reveal_strlit("No file selected");
            reveal_strlit("Select an image file (.png, .jpg, .bmp, .webp, .gif)");
        }
        self.path_buffer = path;
        let t = trim(self.path_buffer.as_str());
        if t.unicode_len() == 0 {
            self.error_message = copy_string("No file selected");
            return;
        }
        if !is_image_file(t.as_str()) {
            self.error_message = copy_string("Select an image file (.png, .jpg, .bmp, .webp, .gif)");
            return;
        }
        self.load_pending = true;
    }

    /// Take what reading the chosen image gave: `Err` with the reader's
    /// message, or `Ok` with its height and the width of its first row.
    /// Returns whether the caller is to build the preview from it (see
    /// `apply_preview`); otherwise the error is shown.
    pub fn finish_load(&mut self, loaded: Result<(usize, usize), String>) -> (build: bool)
        ensures
            match loaded {
                Err(e) => {
                    &&& !build
                    &&& final(self).error_message@ == "Failed to load image: "@ + e@
                    &&& *final(self) == (RasciiImportDialog { error_message: final(self).error_message, load_pending: false, ..*old(self) })
                },
                Ok((h, w)) => if h == 0 || w == 0 {
                    &&& !build
                    &&& final(self).error_message@ == "Loaded image is empty"@
                    &&& *final(self) == (RasciiImportDialog { error_message: final(self).error_message, load_pending: false, ..*old(self) })
                } else {
                    &&& build
                    &&& final(self).error_message@.len() == 0
                    &&& *final(self) == (RasciiImportDialog { error_message: final(self).error_message, ..*old(self) })
                },
            },
    {
        proof {
            reveal_strlit("Loaded image is empty");
        }
        match loaded {
            Err(e) => {
                let mut m = copy_string("Failed to load image: ");
                push_str(&mut m, e.as_str());
                self.error_message = m;
                self.load_pending = false;
                false
            },
            Ok((h, w)) => {
                if h == 0 || w == 0 {
                    self.error_message = copy_string("Loaded image is empty");
                    self.load_pending = false;
                    false
                } else {
                    self.error_message = String::new();
                    true
                }
            },
        }
    }

    /// Take a preview built for the current options (`None` when reading
    /// the image again failed: nothing changes but the requests).
    pub fn apply_preview(&mut self, preview: Option<Vec<Vec<CanvasCell>>>)
        ensures
            !final(self).load_pending,
            !final(self).regenerate_pending,
            match preview {
                Some(cells) => *final(self) == (RasciiImportDialog {
                    preview_cells: Some(cells),
                    preview_dirty: false,
                    load_pending: false,
                    regenerate_pending: false,
                    ..*old(self)
                }),
                None => *final(self) == (RasciiImportDialog { load_pending: false, regenerate_pending: false, ..*old(self) }),
            },
    {
        match preview {
            Some(cells) => {
                self.preview_cells = Some(cells);
                self.preview_dirty = false;
            },
            None => {},
        }
        self.load_pending = false;
        self.regenerate_pending = false;
    }

    /// Whether the preview can be rebuilt: one is shown and a file is typed.
    pub fn can_regenerate(&self) -> (b: bool)
        ensures
            b == (self.preview_cells is Some && trimmed(self.path_buffer@).len() > 0),
    {
        let t = trim(self.path_buffer.as_str());
        self.preview_cells.is_some() && t.unicode_len() > 0
    }

    fn handle_key_browsing(&mut self, code: KeyCode, facts: PathFacts) -> (used: bool)
        requires
            image_selection_ok(*old(self)),
        ensures
            image_browse_key_post(*old(self), *final(self), code, facts, used),
    {
        match code {
            KeyCode::Char(c) => {
                if is_control(c) {
                    return false;
                }
                push_char(&mut self.path_buffer, c);
                self.error_message = String::new();
                self.selected_entry = 0;
                self.request_refresh();
                true
            },
            KeyCode::Backspace => {
                pop_char(&mut self.path_buffer);
                self.error_message = String::new();
                self.selected_entry = 0;
                self.request_refresh();
                true
            },
            KeyCode::Up => {
                if self.directory_entries.len() > 0 && self.selected_entry > 0 {
                    self.selected_entry = self.selected_entry - 1;
                }
                true
            },
            KeyCode::Down => {
                let n = self.directory_entries.len();
                if n > 0 && self.selected_entry < n - 1 {
                    self.selected_entry = self.selected_entry + 1;
                }
                true
            },
            KeyCode::Tab => {
                if self.directory_entries.len() > 0 {
                    self.select_entry(facts.path_is_dir);
                }
                true
            },
            KeyCode::Enter => {
                let step = enter_step_of(self.path_buffer.as_str(), self.directory_entries.len(), facts);
                match step {
                    EnterStep::Relist => {
                        self.selected_entry = 0;
                        self.error_message = String::new();
                        self.request_refresh();
                    },
                    EnterStep::OpenTyped => {
                        let p = copy_string(self.path_buffer.as_str());
                        self.start_load(p);
                    },
                    EnterStep::Descend => {
                        self.select_entry(facts.path_is_dir);
                    },
                    EnterStep::OpenEntry => {
                        if is_image_file(self.directory_entries[self.selected_entry].as_str()) {
                            match self.entry_path(facts.path_is_dir) {
                                Some(p) => self.start_load(p),
                                None => {},
                            }
                        }
                    },
                    EnterStep::Stay => {},
                }
                true
            },
            KeyCode::Esc => {
                self.close();
                true
            },
            _ => false,
        }
    }

    fn after_option_change(&mut self)
        ensures
            *final(self) == (RasciiImportDialog {
                regenerate_pending: if old(self).preview_cells is Some && trimmed(old(self).path_buffer@).len() > 0 {
                    true
                } else {
                    old(self).regenerate_pending
                },
                ..*old(self)
            }),
    {
        if self.can_regenerate() {
            self.regenerate_pending = true;
        }
    }

    fn handle_key_options(&mut self, code: KeyCode) -> (used: bool)
        requires
            old(self).preview_cells is Some,
            old(self).charset_index < usize::MAX,
            old(self).output_width + 4 <= u32::MAX,
        ensures
            image_options_key_post(*old(self), *final(self), code, used),
    {
        match code {
            KeyCode::Enter => {
                self.confirmed = true;
                self.active = false;
                true
            },
            KeyCode::Esc => {
                self.preview_cells = None;
                self.preview_dirty = false;
                self.confirmed = false;
                self.error_message = String::new();
                true
            },
            KeyCode::Char(c) => {
                if c == 'C' || c == 'c' {
                    self.cycle_charset();
                    self.after_option_change();
                    true
                } else if c == 'T' || c == 't' {
                    self.cycle_color_mode();
                    self.after_option_change();
                    true
                } else if c == '+' || c == '=' {
                    self.width_up();
                    self.after_option_change();
                    true
                } else if c == '-' || c == '_' {
                    self.width_down();
                    self.after_option_change();
                    true
                } else {
                    false
                }
            },
            KeyCode::Up => {
                self.width_up();
                self.after_option_change();
                true
            },
            KeyCode::Down => {
                self.width_down();
                self.after_option_change();
                true
            },
            _ => false,
        }
    }

    /// A key: the file browser takes it while no preview is shown (see
    /// `image_browse_key_post`), the options after (see
    /// `image_options_key_post`). `facts` tells what the file system says
    /// of the paths involved; the caller then serves `refresh_pending`,
    /// `load_pending` and `regenerate_pending`.
    pub fn handle_key(&mut self, code: KeyCode, facts: PathFacts) -> (used: bool)
        requires
            image_selection_ok(*old(self)),
            old(self).charset_index < usize::MAX,
            old(self).output_width + 4 <= u32::MAX,
        ensures
            old(self).preview_cells is None ==> image_browse_key_post(*old(self), *final(self), code, facts, used),
            old(self).preview_cells is Some ==> image_options_key_post(*old(self), *final(self), code, used),
    {
        match self.preview_cells {
            None => self.handle_key_browsing(code, facts),
            Some(_) => self.handle_key_options(code),
        }
    }
}


/// Cycling the colour mode three times comes back to the start, passing
/// through every mode once.
pub proof fn law_color_mode_cycle(m: ColorMode)
    ensures
        m.spec_cycle().spec_cycle().spec_cycle() == m,
        m.spec_cycle() != m,
        m.spec_cycle().spec_cycle() != m,
{
}


} // verus!
