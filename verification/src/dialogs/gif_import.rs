use vstd::prelude::*;

use crate::browse::{
    enter_step, enter_step_of, entry_path, has_suffix, selected_entry_path, sorted_strings, DirEntry,
    EnterStep, PathFacts,
};
use crate::dialogs::new_image::byte_len;
use crate::font_editor::popped;
use crate::keys::{is_ascii_digit, is_control, is_control_char, is_digit_char, KeyCode};
use crate::text::{
    copy_string, decimal, lowercase, parse_u16, parse_usize, parsed_u16, parsed_usize, pop_char, push_char,
    strings_view, to_lowercase, trim, trimmed,
};

verus! {

/// The option fields of the GIF import dialog, in tab order.
#[derive(Debug, Clone, Copy, PartialEq, Eq, Structural)]
pub enum GifField {
    ImageWidth,
    ImageHeight,
    CanvasWidth,
    CanvasHeight,
    KeepProportions,
}

impl GifField {
    pub open spec fn spec_next(self) -> GifField {
        match self {
            GifField::ImageWidth => GifField::ImageHeight,
            GifField::ImageHeight => GifField::CanvasWidth,
            GifField::CanvasWidth => GifField::CanvasHeight,
            GifField::CanvasHeight => GifField::KeepProportions,
            GifField::KeepProportions => GifField::ImageWidth,
        }
    }

    pub open spec fn spec_prev(self) -> GifField {
        match self {
            GifField::ImageWidth => GifField::KeepProportions,
            GifField::ImageHeight => GifField::ImageWidth,
            GifField::CanvasWidth => GifField::ImageHeight,
            GifField::CanvasHeight => GifField::CanvasWidth,
            GifField::KeepProportions => GifField::CanvasHeight,
        }
    }

    /// The following field, wrapping around.
    pub fn next(self) -> (f: GifField)
        ensures
            f == self.spec_next(),
    {
        match self {
            GifField::ImageWidth => GifField::ImageHeight,
            GifField::ImageHeight => GifField::CanvasWidth,
            GifField::CanvasWidth => GifField::CanvasHeight,
            GifField::CanvasHeight => GifField::KeepProportions,
            GifField::KeepProportions => GifField::ImageWidth,
        }
    }

    /// The preceding field, wrapping around.
    pub fn prev(self) -> (f: GifField)
        ensures
            f == self.spec_prev(),
    {
        match self {
            GifField::ImageWidth => GifField::KeepProportions,
            GifField::ImageHeight => GifField::ImageWidth,
            GifField::CanvasWidth => GifField::ImageHeight,
            GifField::CanvasHeight => GifField::CanvasWidth,
            GifField::KeepProportions => GifField::CanvasHeight,
        }
    }
}

/// How the frames of a GIF are scaled to cells.
#[derive(Debug, Clone, Copy, PartialEq, Eq, Structural)]
pub enum GifScaleTarget {
    /// Fit inside a box of the given width and height, keeping proportions.
    FitBox(usize, usize),
    /// Exactly the given width and height.
    Exact(usize, usize),
    /// The given width, the height following the proportions.
    FitWidth(usize),
}

/// What the user chose to import.
pub struct GifImportConfig {
    pub path: String,
    pub image_scale: GifScaleTarget,
    pub canvas_width: u16,
    pub canvas_height: u16,
}

/// The GIF import dialog: a file browser, then the image and canvas sizes.
/// `refresh_pending` asks the caller to list the directory again (see
/// `apply_listing`).
pub struct GifImportDialog {
    pub active: bool,
    pub confirmed: bool,
    pub config: Option<GifImportConfig>,
    pub error_message: String,
    pub path_buffer: String,
    pub directory_entries: Vec<String>,
    pub selected_entry: usize,
    pub hide_dotfiles: bool,
    pub native_width: u16,
    pub native_height: u16,
    pub image_w_buf: String,
    pub image_h_buf: String,
    pub canvas_w_buf: String,
    pub canvas_h_buf: String,
    pub keep_proportions: bool,
    pub selected_field: GifField,
    pub refresh_pending: bool,
    /// The typed file passed the checks on its name and waits to be read
    /// (see `finish_probe`).
    pub probe_pending: bool,
    /// A size to recompute to keep the proportions (see `apply_proportion`).
    pub proportion_request: Option<ProportionRequest>,
}

/// A size the dialog asks the caller to compute from the other one and the
/// GIF's own size, to keep the proportions.
#[derive(Debug, Clone, Copy, PartialEq, Eq, Structural)]
pub enum ProportionRequest {
    /// The image height for this image width.
    HeightForWidth(usize),
    /// The image width for this image height.
    WidthForHeight(usize),
}

/// What reading the chosen GIF gave.
#[derive(Debug, Clone, PartialEq, Eq)]
pub enum GifProbe {
    /// No file exists at the path.
    NotFound,
    /// Reading it failed, with this message.
    Failed(String),
    /// Its size in pixels, and the size in cells that fits it into 80 by 24.
    Read { width: usize, height: usize, fit_width: usize, fit_height: usize },
}

/// A size typed into a field: a number from 1 to 65535.
pub open spec fn size_value(s: Seq<char>) -> Option<u16> {
    if s.len() == 0 {
        None
    } else {
        match parsed_u16(s) {
            Some(v) => if v >= 1 { Some(v) } else { None },
            None => None,
        }
    }
}

/// What confirming does once it is known whether the typed file exists:
/// the first missing or invalid value is reported and its field selected;
/// otherwise the choice is recorded and the dialog closes.
pub open spec fn confirm_post(pre: GifImportDialog, post: GifImportDialog, exists: bool) -> bool {
    let iw = size_value(pre.image_w_buf@);
    let ih = size_value(pre.image_h_buf@);
    let cw = size_value(pre.canvas_w_buf@);
    let chh = size_value(pre.canvas_h_buf@);
    let refused = |f: GifField| post == (GifImportDialog { error_message: post.error_message, selected_field: f, ..pre });
    if !exists {
        post.error_message@ == "File not found"@ && refused(GifField::ImageWidth)
    } else if iw is None {
        post.error_message@ == "Image width must be 1-65535"@ && refused(GifField::ImageWidth)
    } else if ih is None {
        post.error_message@ == "Image height must be 1-65535"@ && refused(GifField::ImageHeight)
    } else if cw is None {
        post.error_message@ == "Canvas width must be 1-65535"@ && refused(GifField::CanvasWidth)
    } else if chh is None {
        post.error_message@ == "Canvas height must be 1-65535"@ && refused(GifField::CanvasHeight)
    } else {
        &&& post.config is Some
        &&& post.config.unwrap().path@ == trimmed(pre.path_buffer@)
        &&& post.config.unwrap().image_scale == (if pre.keep_proportions {
            GifScaleTarget::FitBox(iw.unwrap() as usize, ih.unwrap() as usize)
        } else {
            GifScaleTarget::Exact(iw.unwrap() as usize, ih.unwrap() as usize)
        })
        &&& post.config.unwrap().canvas_width == cw.unwrap()
        &&& post.config.unwrap().canvas_height == chh.unwrap()
        &&& post == (GifImportDialog { config: post.config, confirmed: true, active: false, ..pre })
    }
}

fn decimal_string(n: u16) -> (s: String)
    ensures
        s@ == crate::text::decimal(n as nat),
{
    let mut s = String::new();
    crate::text::push_decimal(&mut s, n as usize);
    s
}

impl GifImportDialog {
    /// A closed dialog with the default sizes 80 by 24 and proportions kept.
    pub fn new() -> (d: GifImportDialog)
        ensures
            !d.active,
            !d.confirmed,
            d.config.is_none(),
            d.error_message@.len() == 0,
            d.path_buffer@.len() == 0,
            d.directory_entries@.len() == 0,
            d.selected_entry == 0,
            d.hide_dotfiles,
            d.native_width == 0,
            d.native_height == 0,
            d.image_w_buf@ == crate::text::decimal(80),
            d.image_h_buf@ == crate::text::decimal(24),
            d.canvas_w_buf@ == crate::text::decimal(80),
            d.canvas_h_buf@ == crate::text::decimal(24),
            d.keep_proportions,
            d.selected_field == GifField::ImageWidth,
            !d.refresh_pending,
            !d.probe_pending,
            d.proportion_request is None,
    {
        GifImportDialog {
            active: false,
            confirmed: false,
            config: None,
            error_message: String::new(),
            path_buffer: String::new(),
            directory_entries: Vec::new(),
            selected_entry: 0,
            hide_dotfiles: true,
            native_width: 0,
            native_height: 0,
            image_w_buf: decimal_string(80),
            image_h_buf: decimal_string(24),
            canvas_w_buf: decimal_string(80),
            canvas_h_buf: decimal_string(24),
            keep_proportions: true,
            selected_field: GifField::ImageWidth,
            refresh_pending: false,
            probe_pending: false,
            proportion_request: None,
        }
    }

    /// Open the dialog on the file browser, nothing chosen yet, and ask for
    /// the listing of the working directory.
    pub fn enter(&mut self)
        ensures
            final(self).active,
            !final(self).confirmed,
            final(self).config.is_none(),
            final(self).error_message@.len() == 0,
            final(self).path_buffer@.len() == 0,
            final(self).selected_entry == 0,
            final(self).directory_entries@.len() == 0,
            final(self).native_width == 0,
            final(self).native_height == 0,
            final(self).selected_field == GifField::ImageWidth,
            final(self).keep_proportions,
            final(self).refresh_pending,
            !final(self).probe_pending,
            final(self).proportion_request is None,
            final(self).image_w_buf == old(self).image_w_buf,
            final(self).image_h_buf == old(self).image_h_buf,
            final(self).canvas_w_buf == old(self).canvas_w_buf,
            final(self).canvas_h_buf == old(self).canvas_h_buf,
            final(self).hide_dotfiles == old(self).hide_dotfiles,
    {
        self.active = true;
        self.confirmed = false;
        self.config = None;
        self.error_message = String::new();
        self.path_buffer = String::new();
        self.selected_entry = 0;
        self.directory_entries = Vec::new();
        self.native_width = 0;
        self.native_height = 0;
        self.selected_field = GifField::ImageWidth;
        self.keep_proportions = true;
        self.refresh_pending = true;
        self.probe_pending = false;
        self.proportion_request = None;
    }

    /// Close the dialog, dropping the choice and the listing.
    pub fn close(&mut self)
        ensures
            !final(self).active,
            !final(self).confirmed,
            final(self).config.is_none(),
            final(self).error_message@.len() == 0,
            final(self).path_buffer@.len() == 0,
            final(self).directory_entries@.len() == 0,
            final(self).selected_entry == 0,
            !final(self).refresh_pending,
            !final(self).probe_pending,
            final(self).proportion_request is None,
            final(self).native_width == old(self).native_width,
            final(self).native_height == old(self).native_height,
            final(self).keep_proportions == old(self).keep_proportions,
            final(self).selected_field == old(self).selected_field,
    {
        self.active = false;
        self.confirmed = false;
        self.config = None;
        self.error_message = String::new();
        self.path_buffer = String::new();
        self.directory_entries = Vec::new();
        self.selected_entry = 0;
        self.refresh_pending = false;
        self.probe_pending = false;
        self.proportion_request = None;
    }

    /// Take the entries read from the listed directory: directories and
    /// `.gif` files, without dotfiles when they are hidden, sorted.
    pub fn apply_listing(&mut self, entries: &Vec<DirEntry>)
        ensures
            sorted_strings(strings_view(final(self).directory_entries@)),
            strings_view(final(self).directory_entries@).to_multiset() == gif_names(entries@, old(self).hide_dotfiles).to_multiset(),
            *final(self) == (GifImportDialog {
                directory_entries: final(self).directory_entries,
                selected_entry: 0,
                refresh_pending: false,
                ..*old(self)
            }),
    {
        let mut gifs: Vec<String> = Vec::new();
        let mut i: usize = 0;
        while i < entries.len()
            invariant
                i <= entries@.len(),
                strings_view(gifs@) == gif_names(entries@.take(i as int), old(self).hide_dotfiles),
                self.hide_dotfiles == old(self).hide_dotfiles,
            decreases entries@.len() - i,
        {
            assert(entries@.take(i + 1).drop_last() =~= entries@.take(i as int));
            assert(entries@.take(i + 1).last() == entries@[i as int]);
            let e = &entries[i];
            if gif_listed(e, self.hide_dotfiles) {
                let ghost prev = gifs@;
                gifs.push(copy_string(e.name.as_str()));
                assert(strings_view(gifs@) =~= strings_view(prev).push(e.name@));
            }
            i = i + 1;
        }
        assert(entries@.take(i as int) =~= entries@);
        self.directory_entries = crate::browse::sorted_names(&gifs);
        self.selected_entry = 0;
        self.refresh_pending = false;
    }

    /// Whether the dialog still browses for a file: no GIF size is known.
    pub fn is_browsing(&self) -> (b: bool)
        ensures
            b == (self.native_width == 0 || self.native_height == 0),
    {
        self.native_width == 0 || self.native_height == 0
    }

    /// A size typed into a field: see `size_value`.
    pub fn parse_u16(buf: &str) -> (r: Option<u16>)
        ensures
            r == size_value(buf@),
    {
        if buf.unicode_len() == 0 {
            return None;
        }
        match parse_u16(buf) {
            Some(v) => if v >= 1 {
                Some(v)
            } else {
                None
            },
            None => None,
        }
    }

    /// Confirm the choice when `exists` tells whether the typed file
    /// exists: see `confirm_post`.
    pub fn confirm_with(&mut self, exists: bool)
        ensures
            confirm_post(*old(self), *final(self), exists),
    {
        proof {
            reveal_strlit("File not found");
        }
        if !exists {
            self.error_message = copy_string("File not found");
            self.selected_field = GifField::ImageWidth;
            return;
        }
        let iw = match GifImportDialog::parse_u16(self.image_w_buf.as_str()) {
            Some(v) => v,
            None => {
                self.error_message = copy_string("Image width must be 1-65535");
                self.selected_field = GifField::ImageWidth;
                return;
            },
        };
        let ih = match GifImportDialog::parse_u16(self.image_h_buf.as_str()) {
            Some(v) => v,
            None => {
                self.error_message = copy_string("Image height must be 1-65535");
                self.selected_field = GifField::ImageHeight;
                return;
            },
        };
        let cw = match GifImportDialog::parse_u16(self.canvas_w_buf.as_str()) {
            Some(v) => v,
            None => {
                self.error_message = copy_string("Canvas width must be 1-65535");
                self.selected_field = GifField::CanvasWidth;
                return;
            },
        };
        let ch = match GifImportDialog::parse_u16(self.canvas_h_buf.as_str()) {
            Some(v) => v,
            None => {
                self.error_message = copy_string("Canvas height must be 1-65535");
                self.selected_field = GifField::CanvasHeight;
                return;
            },
        };
        let image_scale = if self.keep_proportions {
            GifScaleTarget::FitBox(iw as usize, ih as usize)
        } else {
            GifScaleTarget::Exact(iw as usize, ih as usize)
        };
        self.config = Some(GifImportConfig {
            path: trim(self.path_buffer.as_str()),
            image_scale,
            canvas_width: cw,
            canvas_height: ch,
        });
        self.confirmed = true;
        self.active = false;
    }
}

/// The listing was dropped and a new one asked for.
pub open spec fn gif_refresh_requested(d: GifImportDialog) -> bool {
    &&& d.directory_entries@.len() == 0
    &&& d.selected_entry == 0
    &&& d.refresh_pending
}

/// The selection names a listed entry, or nothing is listed.
pub open spec fn gif_selection_ok(d: GifImportDialog) -> bool {
    d.directory_entries@.len() == 0 || d.selected_entry < d.directory_entries@.len()
}

/// After choosing `path` as the file: an empty or non-GIF name is
/// refused with a message, any other is to be read (`probe_pending`).
pub open spec fn gif_probe_started(pre: GifImportDialog, post: GifImportDialog, path: Seq<char>) -> bool {
    let t = trimmed(path);
    &&& post.path_buffer@ == path
    &&& if t.len() == 0 {
        &&& post == (GifImportDialog { path_buffer: post.path_buffer, error_message: post.error_message, ..pre })
        &&& post.error_message@ == "No file selected"@
    } else if !has_suffix(lowercase(t), ".gif"@) {
        &&& post == (GifImportDialog { path_buffer: post.path_buffer, error_message: post.error_message, ..pre })
        &&& post.error_message@ == "Select a .gif file"@
    } else {
        post == (GifImportDialog { path_buffer: post.path_buffer, probe_pending: true, ..pre })
    }
}

/// The image height to recompute after the image width changed, when the
/// proportions are kept and the GIF's size is known.
pub open spec fn height_request(d: GifImportDialog) -> Option<ProportionRequest> {
    let w: usize = match parsed_usize(d.image_w_buf@) {
        Some(v) => v,
        None => 0,
    };
    if d.keep_proportions && d.native_width != 0 && d.native_height != 0 && w != 0 {
        Some(ProportionRequest::HeightForWidth(w))
    } else {
        None
    }
}

/// The image width to recompute after the image height changed, when the
/// proportions are kept and the GIF's size is known.
pub open spec fn width_request(d: GifImportDialog) -> Option<ProportionRequest> {
    let h: usize = match parsed_usize(d.image_h_buf@) {
        Some(v) => v,
        None => 0,
    };
    if d.keep_proportions && d.native_width != 0 && d.native_height != 0 && h != 0 {
        Some(ProportionRequest::WidthForHeight(h))
    } else {
        None
    }
}

/// A digit typed into the selected field: appended while the field holds
/// fewer than five bytes, and the other image size recomputed for an image
/// size.
pub open spec fn gif_digit_post(pre: GifImportDialog, post: GifImportDialog, c: char) -> bool {
    let f = pre.selected_field;
    let room = match f {
        GifField::ImageWidth => (byte_len(pre.image_w_buf@) as usize) < 5,
        GifField::ImageHeight => (byte_len(pre.image_h_buf@) as usize) < 5,
        GifField::CanvasWidth => (byte_len(pre.canvas_w_buf@) as usize) < 5,
        GifField::CanvasHeight => (byte_len(pre.canvas_h_buf@) as usize) < 5,
        GifField::KeepProportions => false,
    };
    &&& post.image_w_buf@ == (if room && f == GifField::ImageWidth { pre.image_w_buf@.push(c) } else { pre.image_w_buf@ })
    &&& post.image_h_buf@ == (if room && f == GifField::ImageHeight { pre.image_h_buf@.push(c) } else { pre.image_h_buf@ })
    &&& post.canvas_w_buf@ == (if room && f == GifField::CanvasWidth { pre.canvas_w_buf@.push(c) } else { pre.canvas_w_buf@ })
    &&& post.canvas_h_buf@ == (if room && f == GifField::CanvasHeight { pre.canvas_h_buf@.push(c) } else { pre.canvas_h_buf@ })
    &&& post.proportion_request == (if room && f == GifField::ImageWidth {
        height_request(post)
    } else if room && f == GifField::ImageHeight {
        width_request(post)
    } else {
        pre.proportion_request
    })
    &&& post.error_message@.len() == 0
    &&& post == (GifImportDialog {
        image_w_buf: post.image_w_buf,
        image_h_buf: post.image_h_buf,
        canvas_w_buf: post.canvas_w_buf,
        canvas_h_buf: post.canvas_h_buf,
        error_message: post.error_message,
        proportion_request: post.proportion_request,
        ..pre
    })
}

/// Backspace in the selected field: its last character removed, and the
/// other image size recomputed for an image size.
pub open spec fn gif_backspace_post(pre: GifImportDialog, post: GifImportDialog) -> bool {
    &&& post.error_message@.len() == 0
    &&& match pre.selected_field {
        GifField::ImageWidth => {
            &&& post == (GifImportDialog { image_w_buf: post.image_w_buf, error_message: post.error_message, proportion_request: post.proportion_request, ..pre })
            &&& post.image_w_buf@ == popped(pre.image_w_buf@)
            &&& post.proportion_request == height_request(post)
        },
        GifField::ImageHeight => {
            &&& post == (GifImportDialog { image_h_buf: post.image_h_buf, error_message: post.error_message, proportion_request: post.proportion_request, ..pre })
            &&& post.image_h_buf@ == popped(pre.image_h_buf@)
            &&& post.proportion_request == width_request(post)
        },
        GifField::CanvasWidth => {
            &&& post == (GifImportDialog { canvas_w_buf: post.canvas_w_buf, error_message: post.error_message, ..pre })
            &&& post.canvas_w_buf@ == popped(pre.canvas_w_buf@)
        },
        GifField::CanvasHeight => {
            &&& post == (GifImportDialog { canvas_h_buf: post.canvas_h_buf, error_message: post.error_message, ..pre })
            &&& post.canvas_h_buf@ == popped(pre.canvas_h_buf@)
        },
        GifField::KeepProportions => post == (GifImportDialog { error_message: post.error_message, ..pre }),
    }
}

/// A key while the file browser shows (no GIF size known yet); `facts`
/// tells what the file system says of the paths involved.
pub open spec fn gif_browse_key_post(pre: GifImportDialog, post: GifImportDialog, code: KeyCode, facts: PathFacts, used: bool) -> bool {
    let n = pre.directory_entries@.len();
    let relisted = post.error_message@.len() == 0 && gif_refresh_requested(post)
        && post == (GifImportDialog {
            path_buffer: post.path_buffer,
            error_message: post.error_message,
            directory_entries: post.directory_entries,
            selected_entry: post.selected_entry,
            refresh_pending: post.refresh_pending,
            ..pre
        });
    let moved = post == (GifImportDialog { selected_entry: post.selected_entry, ..pre });
    match code {
        KeyCode::Char(c) => if !is_control_char(c) {
            used && relisted && post.path_buffer@ == pre.path_buffer@.push(c)
        } else {
            !used && post == pre
        },
        KeyCode::Backspace => used && relisted && post.path_buffer@ == popped(pre.path_buffer@),
        KeyCode::Up => used && moved && post.selected_entry == crate::file_ops::selection_up(n, pre.selected_entry),
        KeyCode::Down => used && moved && post.selected_entry == crate::file_ops::selection_down(n, pre.selected_entry),
        KeyCode::Tab => used && if n > 0 && pre.selected_entry < n {
            relisted && post.path_buffer@ == entry_path(pre.path_buffer@, strings_view(pre.directory_entries@), pre.selected_entry as int, facts.path_is_dir)
        } else {
            post == pre
        },
        KeyCode::Enter => used && match enter_step(pre.path_buffer@, n, facts) {
            EnterStep::Relist => relisted && post.path_buffer == pre.path_buffer,
            EnterStep::OpenTyped => gif_probe_started(pre, post, pre.path_buffer@),
            EnterStep::Descend => relisted && post.path_buffer@ == entry_path(pre.path_buffer@, strings_view(pre.directory_entries@), pre.selected_entry as int, facts.path_is_dir),
            EnterStep::OpenEntry => gif_probe_started(pre, post, entry_path(pre.path_buffer@, strings_view(pre.directory_entries@), pre.selected_entry as int, facts.path_is_dir)),
            EnterStep::Stay => post == pre,
        },
        KeyCode::Esc => used && !post.active && !post.confirmed && post.config is None && post.error_message@.len() == 0
            && post.path_buffer@.len() == 0 && post.directory_entries@.len() == 0 && post.selected_entry == 0
            && !post.refresh_pending && !post.probe_pending && post.proportion_request is None
            && post.native_width == pre.native_width && post.native_height == pre.native_height,
        _ => !used && post == pre,
    }
}

/// A key while the size options show (the GIF's size is known); `facts`
/// tells whether the chosen file still exists.
pub open spec fn gif_options_key_post(pre: GifImportDialog, post: GifImportDialog, code: KeyCode, facts: PathFacts, used: bool) -> bool {
    match code {
        KeyCode::Enter => used && confirm_post(pre, post, facts.trimmed_exists),
        KeyCode::Esc => used && post.error_message@.len() == 0
            && post == (GifImportDialog { native_width: 0, native_height: 0, error_message: post.error_message, ..pre }),
        KeyCode::Tab | KeyCode::Down => used && post == (GifImportDialog { selected_field: pre.selected_field.spec_next(), ..pre }),
        KeyCode::BackTab | KeyCode::Up => used && post == (GifImportDialog { selected_field: pre.selected_field.spec_prev(), ..pre }),
        KeyCode::Char(c) => if is_digit_char(c) {
            used && gif_digit_post(pre, post, c)
        } else if c == ' ' {
            used && if pre.selected_field == GifField::KeepProportions {
                &&& post.keep_proportions == !pre.keep_proportions
                &&& post.proportion_request == (if post.keep_proportions { height_request(post) } else { pre.proportion_request })
                &&& post == (GifImportDialog { keep_proportions: post.keep_proportions, proportion_request: post.proportion_request, ..pre })
            } else {
                post == pre
            }
        } else {
            !used && post == pre
        },
        KeyCode::Backspace => used && gif_backspace_post(pre, post),
        _ => !used && post == pre,
    }
}

/// What taking the outcome of reading the chosen GIF does: a message for
/// a missing or unreadable file; else its size (at most 65535 each way),
/// and the fitted size in all four size fields, with the proportions kept.
pub open spec fn probe_finished(pre: GifImportDialog, post: GifImportDialog, outcome: GifProbe) -> bool {
    &&& !post.probe_pending
    &&& match outcome {
        GifProbe::NotFound => {
            &&& post.error_message@ == "File not found"@
            &&& post == (GifImportDialog { error_message: post.error_message, probe_pending: false, ..pre })
        },
        GifProbe::Failed(e) => {
            &&& post.error_message@ == "Failed to read GIF: "@ + e@
            &&& post == (GifImportDialog { error_message: post.error_message, probe_pending: false, ..pre })
        },
        GifProbe::Read { width, height, fit_width, fit_height } => {
            &&& post.native_width == (if width > 65535 { 65535 } else { width }) as u16
            &&& post.native_height == (if height > 65535 { 65535 } else { height }) as u16
            &&& post.error_message@.len() == 0
            &&& post.image_w_buf@ == decimal((if fit_width > 65535 { 65535 } else { fit_width }) as nat)
            &&& post.image_h_buf@ == decimal((if fit_height > 65535 { 65535 } else { fit_height }) as nat)
            &&& post.canvas_w_buf@ == post.image_w_buf@
            &&& post.canvas_h_buf@ == post.image_h_buf@
            &&& post.selected_field == GifField::ImageWidth
            &&& post.keep_proportions
            &&& post == (GifImportDialog {
                native_width: post.native_width,
                native_height: post.native_height,
                error_message: post.error_message,
                image_w_buf: post.image_w_buf,
                image_h_buf: post.image_h_buf,
                canvas_w_buf: post.canvas_w_buf,
                canvas_h_buf: post.canvas_h_buf,
                selected_field: post.selected_field,
                keep_proportions: post.keep_proportions,
                probe_pending: false,
                ..pre
            })
        },
    }
}

impl GifImportDialog {
    fn request_refresh(&mut self)
        ensures
            gif_refresh_requested(*final(self)),
            *final(self) == (GifImportDialog {
                directory_entries: final(self).directory_entries,
                selected_entry: final(self).selected_entry,
                refresh_pending: final(self).refresh_pending,
                ..*old(self)
            }),
    {
        self.directory_entries = Vec::new();
        self.selected_entry = 0;
        self.refresh_pending = true;
    }

    /// The path of the selected entry, joined to the listed directory
    /// (`path_is_dir` tells whether the typed path names a directory);
    /// `None` when the selection is past the listing.
    pub fn entry_path(&self, path_is_dir: bool) -> (r: Option<String>)
        ensures
            self.selected_entry < self.directory_entries@.len() ==> (r matches Some(p) && p@ == entry_path(
                self.path_buffer@,
                strings_view(self.directory_entries@),
                self.selected_entry as int,
                path_is_dir,
            )),
            self.selected_entry >= self.directory_entries@.len() ==> r is None,
    {
        selected_entry_path(self.path_buffer.as_str(), &self.directory_entries, self.selected_entry, path_is_dir)
    }

    /// Take `path` as the chosen file: see `gif_probe_started`.
    fn start_probe(&mut self, path: String)
        ensures
            gif_probe_started(*old(self), *final(self), path@),
    {
        proof {
            reveal_strlit("No file selected");
            reveal_strlit("Select a .gif file");
        }
        self.path_buffer = path;
        let t = trim(self.path_buffer.as_str());
        if t.unicode_len() == 0 {
            self.error_message = copy_string("No file selected");
            return;
        }
        let lower = to_lowercase(t.as_str());
        if !crate::browse::ends_with(lower.as_str(), ".gif") {
            self.error_message = copy_string("Select a .gif file");
            return;
        }
        self.probe_pending = true;
    }

    /// Take what reading the chosen GIF gave: a message for a missing or
    /// unreadable file; else its size (at most 65535 each way), and the
    /// fitted size in all four size fields, with the proportions kept.
    pub fn finish_probe(&mut self, outcome: GifProbe)
        ensures
            probe_finished(*old(self), *final(self), outcome),
    {
        proof {
            reveal_strlit("File not found");
        }
        self.probe_pending = false;
        match outcome {
            GifProbe::NotFound => {
                self.error_message = copy_string("File not found");
            },
            GifProbe::Failed(e) => {
                let mut m = copy_string("Failed to read GIF: ");
                crate::text::push_str(&mut m, e.as_str());
                self.error_message = m;
            },
            GifProbe::Read { width, height, fit_width, fit_height } => {
                self.native_width = if width > 65535 { 65535 } else { width as u16 };
                self.native_height = if height > 65535 { 65535 } else { height as u16 };
                self.error_message = String::new();
                let iw: u16 = if fit_width > 65535 { 65535 } else { fit_width as u16 };
                let ih: u16 = if fit_height > 65535 { 65535 } else { fit_height as u16 };
                self.image_w_buf = decimal_string(iw);
                self.image_h_buf = decimal_string(ih);
                self.canvas_w_buf = decimal_string(iw);
                self.canvas_h_buf = decimal_string(ih);
                self.selected_field = GifField::ImageWidth;
                self.keep_proportions = true;
            },
        }
    }

    /// The image height asked for after the image width changed: see
    /// `height_request`.
    fn update_height_from_width(&mut self)
        ensures
            final(self).proportion_request == height_request(*old(self)),
            *final(self) == (GifImportDialog { proportion_request: final(self).proportion_request, ..*old(self) }),
    {
        let w: usize = match parse_usize(self.image_w_buf.as_str()) {
            Some(v) => v,
            None => 0,
        };
        if self.keep_proportions && self.native_width != 0 && self.native_height != 0 && w != 0 {
            self.proportion_request = Some(ProportionRequest::HeightForWidth(w));
        } else {
            self.proportion_request = None;
        }
    }

    /// The image width asked for after the image height changed: see
    /// `width_request`.
    fn update_width_from_height(&mut self)
        ensures
            final(self).proportion_request == width_request(*old(self)),
            *final(self) == (GifImportDialog { proportion_request: final(self).proportion_request, ..*old(self) }),
    {
        let h: usize = match parse_usize(self.image_h_buf.as_str()) {
            Some(v) => v,
            None => 0,
        };
        if self.keep_proportions && self.native_width != 0 && self.native_height != 0 && h != 0 {
            self.proportion_request = Some(ProportionRequest::WidthForHeight(h));
        } else {
            self.proportion_request = None;
        }
    }

    /// Put the size computed for the pending request (at most 65535) in its
    /// field, and drop the request.
    pub fn apply_proportion(&mut self, value: usize)
        ensures
            final(self).proportion_request is None,
            match old(self).proportion_request {
                Some(ProportionRequest::HeightForWidth(_)) => {
                    &&& final(self).image_h_buf@ == decimal((if value > 65535 { 65535 } else { value }) as nat)
                    &&& *final(self) == (GifImportDialog { image_h_buf: final(self).image_h_buf, proportion_request: None, ..*old(self) })
                },
                Some(ProportionRequest::WidthForHeight(_)) => {
                    &&& final(self).image_w_buf@ == decimal((if value > 65535 { 65535 } else { value }) as nat)
                    &&& *final(self) == (GifImportDialog { image_w_buf: final(self).image_w_buf, proportion_request: None, ..*old(self) })
                },
                None => *final(self) == *old(self),
            },
    {
        let v: u16 = if value > 65535 { 65535 } else { value as u16 };
        match self.proportion_request {
            Some(ProportionRequest::HeightForWidth(_)) => {
                self.image_h_buf = decimal_string(v);
            },
            Some(ProportionRequest::WidthForHeight(_)) => {
                self.image_w_buf = decimal_string(v);
            },
            None => {},
        }
        self.proportion_request = None;
    }

    /// Put the selected entry, joined to the listed directory, in the path
    /// and list it; nothing happens when the selection is past the listing.
    fn select_entry(&mut self, path_is_dir: bool)
        ensures
            old(self).selected_entry < old(self).directory_entries@.len() ==> {
                &&& final(self).error_message@.len() == 0
                &&& gif_refresh_requested(*final(self))
                &&& final(self).path_buffer@ == entry_path(
                    old(self).path_buffer@,
                    strings_view(old(self).directory_entries@),
                    old(self).selected_entry as int,
                    path_is_dir,
                )
                &&& *final(self) == (GifImportDialog {
                    path_buffer: final(self).path_buffer,
                    error_message: final(self).error_message,
                    directory_entries: final(self).directory_entries,
                    selected_entry: final(self).selected_entry,
                    refresh_pending: final(self).refresh_pending,
                    ..*old(self)
                })
            },
            old(self).selected_entry >= old(self).directory_entries@.len() ==> *final(self) == *old(self),
    {
        match self.entry_path(path_is_dir) {
            Some(p) => {
                self.path_buffer = p;
                self.selected_entry = 0;
                self.error_message = String::new();
                self.request_refresh();
            },
            None => {},
        }
    }

    fn handle_key_browsing(&mut self, code: KeyCode, facts: PathFacts) -> (used: bool)
        requires
            gif_selection_ok(*old(self)),
        ensures
            gif_browse_key_post(*old(self), *final(self), code, facts, used),
    {
        match code {
            KeyCode::Char(c) => {
                if is_control(c) {
                    return false;
                }
                push_char(&mut self.path_buffer, c);
                self.error_message = String::new();
                self.selected_entry = 0;
                self.request_refresh();
                true
            },
            KeyCode::Backspace => {
                pop_char(&mut self.path_buffer);
                self.error_message = String::new();
                self.selected_entry = 0;
                self.request_refresh();
                true
            },
            KeyCode::Up => {
                if self.directory_entries.len() > 0 && self.selected_entry > 0 {
                    self.selected_entry = self.selected_entry - 1;
                }
                true
            },
            KeyCode::Down => {
                let n = self.directory_entries.len();
                if n > 0 && self.selected_entry < n - 1 {
                    self.selected_entry = self.selected_entry + 1;
                }
                true
            },
            KeyCode::Tab => {
                if self.directory_entries.len() > 0 {
                    self.select_entry(facts.path_is_dir);
                }
                true
            },
            KeyCode::Enter => {
                let step = enter_step_of(self.path_buffer.as_str(), self.directory_entries.len(), facts);
                match step {
                    EnterStep::Relist => {
                        self.selected_entry = 0;
                        self.error_message = String::new();
                        self.request_refresh();
                    },
                    EnterStep::OpenTyped => {
                        let p = copy_string(self.path_buffer.as_str());
                        self.start_probe(p);
                    },
                    EnterStep::Descend => {
                        self.select_entry(facts.path_is_dir);
                    },
                    EnterStep::OpenEntry => {
                        match self.entry_path(facts.path_is_dir) {
                            Some(p) => self.start_probe(p),
                            None => {},
                        }
                    },
                    EnterStep::Stay => {},
                }
                true
            },
            KeyCode::Esc => {
                self.close();
                true
            },
            _ => false,
        }
    }

    fn handle_key_options(&mut self, code: KeyCode, facts: PathFacts) -> (used: bool)
        ensures
            gif_options_key_post(*old(self), *final(self), code, facts, used),
    {
        match code {
            KeyCode::Enter => {
                self.confirm_with(facts.trimmed_exists);
                true
            },
            KeyCode::Esc => {
                self.native_width = 0;
                self.native_height = 0;
                self.error_message = String::new();
                true
            },
            KeyCode::Tab | KeyCode::Down => {
                self.selected_field = self.selected_field.next();
                true
            },
            KeyCode::BackTab | KeyCode::Up => {
                self.selected_field = self.selected_field.prev();
                true
            },
            KeyCode::Char(c) => {
                if is_ascii_digit(c) {
                    match self.selected_field {
                        GifField::ImageWidth => {
                            if self.image_w_buf.as_str().len() < 5 {
                                push_char(&mut self.image_w_buf, c);
                                self.update_height_from_width();
                            }
                        },
                        GifField::ImageHeight => {
                            if self.image_h_buf.as_str().len() < 5 {
                                push_char(&mut self.image_h_buf, c);
                                self.update_width_from_height();
                            }
                        },
                        GifField::CanvasWidth => {
                            if self.canvas_w_buf.as_str().len() < 5 {
                                push_char(&mut self.canvas_w_buf, c);
                            }
                        },
                        GifField::CanvasHeight => {
                            if self.canvas_h_buf.as_str().len() < 5 {
                                push_char(&mut self.canvas_h_buf, c);
                            }
                        },
                        GifField::KeepProportions => {},
                    }
                    self.error_message = String::new();
                    true
                } else if c == ' ' {
                    if self.selected_field == GifField::KeepProportions {
                        self.keep_proportions = !self.keep_proportions;
                        if self.keep_proportions {
                            self.update_height_from_width();
                        }
                    }
                    true
                } else {
                    false
                }
            },
            KeyCode::Backspace => {
                match self.selected_field {
                    GifField::ImageWidth => {
                        pop_char(&mut self.image_w_buf);
                        self.update_height_from_width();
                    },
                    GifField::ImageHeight => {
                        pop_char(&mut self.image_h_buf);
                        self.update_width_from_height();
                    },
                    GifField::CanvasWidth => {
                        pop_char(&mut self.canvas_w_buf);
                    },
                    GifField::CanvasHeight => {
                        pop_char(&mut self.canvas_h_buf);
                    },
                    GifField::KeepProportions => {},
                }
                self.error_message = String::new();
                true
            },
            _ => false,
        }
    }

    /// A key: the file browser takes it while no GIF size is known (see
    /// `gif_browse_key_post`), the size options after (see
    /// `gif_options_key_post`). `facts` tells what the file system says of
    /// the paths involved; the caller then serves `refresh_pending`,
    /// `probe_pending` and `proportion_request`.
    pub fn handle_key(&mut self, code: KeyCode, facts: PathFacts) -> (used: bool)
        requires
            gif_selection_ok(*old(self)),
        ensures
            old(self).native_width == 0 || old(self).native_height == 0 ==> gif_browse_key_post(*old(self), *final(self), code, facts, used),
            old(self).native_width != 0 && old(self).native_height != 0 ==> gif_options_key_post(*old(self), *final(self), code, facts, used),
    {
        if self.is_browsing() {
            self.handle_key_browsing(code, facts)
        } else {
            self.handle_key_options(code, facts)
        }
    }
}

/// A directory entry the GIF browser lists: a directory or a file whose
/// lower-cased name ends in `.gif`, not hidden.
pub open spec fn gif_entry(name: Seq<char>, is_dir: bool, hide_dotfiles: bool) -> bool {
    &&& !(hide_dotfiles && name.len() > 0 && name[0] == '.')
    &&& (is_dir || crate::browse::has_suffix(crate::text::lowercase(name), ".gif"@))
}

/// The names of the entries the GIF browser lists, in the order given.
pub open spec fn gif_names(entries: Seq<DirEntry>, hide_dotfiles: bool) -> Seq<Seq<char>>
    decreases entries.len(),
{
    if entries.len() == 0 {
        Seq::empty()
    } else {
        let rest = gif_names(entries.drop_last(), hide_dotfiles);
        let e = entries.last();
        if gif_entry(e.name@, e.is_dir, hide_dotfiles) {
            rest.push(e.name@)
        } else {
            rest
        }
    }
}

fn gif_listed(e: &DirEntry, hide_dotfiles: bool) -> (r: bool)
    ensures
        r == gif_entry(e.name@, e.is_dir, hide_dotfiles),
{
    let hidden = hide_dotfiles && e.name.unicode_len() > 0 && e.name.get_char(0) == '.';
    if hidden {
        return false;
    }
    if e.is_dir {
        return true;
    }
    let lower = crate::text::to_lowercase(e.name.as_str());
    crate::browse::ends_with(lower.as_str(), ".gif")
}

impl Default for GifImportDialog {
    fn default() -> (d: GifImportDialog)
        ensures
            !d.active,
            d.keep_proportions,
    {
        GifImportDialog::new()
    }
}


/// Moving to the previous field undoes moving to the next one and back,
/// and five moves forward come back to the start.
pub proof fn law_gif_field_cycle(f: GifField)
    ensures
        f.spec_next().spec_prev() == f,
        f.spec_prev().spec_next() == f,
        f.spec_next().spec_next().spec_next().spec_next().spec_next() == f,
{
}


/// The sizes the dialog writes into its fields read back as the same
/// numbers: a GIF that was read and is confirmed at once is imported at
/// the fitted size, with proportions kept, on a canvas of the same size.
pub proof fn law_probe_then_confirm(a: GifImportDialog, b: GifImportDialog, c: GifImportDialog, width: usize, height: usize, fit_width: usize, fit_height: usize)
    requires
        fit_width >= 1,
        fit_height >= 1,
        probe_finished(a, b, GifProbe::Read { width, height, fit_width, fit_height }),
        confirm_post(b, c, true),
    ensures
        c.confirmed,
        !c.active,
        c.config matches Some(cfg) && cfg.image_scale == GifScaleTarget::FitBox(
            (if fit_width > 65535 { 65535 } else { fit_width }),
            (if fit_height > 65535 { 65535 } else { fit_height }),
        ) && cfg.canvas_width == (if fit_width > 65535 { 65535 } else { fit_width }) as u16
            && cfg.canvas_height == (if fit_height > 65535 { 65535 } else { fit_height }) as u16,
{
    let w: nat = (if fit_width > 65535 { 65535 } else { fit_width }) as nat;
    let h: nat = (if fit_height > 65535 { 65535 } else { fit_height }) as nat;
    crate::text::lemma_decimal_reads_back(w);
    crate::text::lemma_decimal_reads_back(h);
    assert(decimal(w)[0] != '+') by {
        assert(crate::text::is_digit(decimal(w)[0]));
    }
    assert(decimal(h)[0] != '+') by {
        assert(crate::text::is_digit(decimal(h)[0]));
    }
    assert(size_value(decimal(w)) == Some(w as u16));
    assert(size_value(decimal(h)) == Some(h as u16));
}

} // verus!
