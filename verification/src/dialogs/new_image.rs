use vstd::prelude::*;

use crate::keys::{is_ascii_digit, is_digit_char, KeyCode};
use crate::text::{copy_string, decimal, pop_char, push_char, push_decimal};
use crate::font_editor::popped;
use crate::dialogs::gif_import::size_value;

verus! {

/// The fields of the new-image dialog, in tab order.
#[derive(Debug, Clone, Copy, PartialEq, Eq, Structural)]
pub enum Field {
    Width,
    Height,
    Palette,
}

/// The field after `f`, wrapping around.
pub open spec fn field_after(f: Field) -> Field {
    match f {
        Field::Width => Field::Height,
        Field::Height => Field::Palette,
        Field::Palette => Field::Width,
    }
}

/// The field before `f`, wrapping around.
pub open spec fn field_before(f: Field) -> Field {
    match f {
        Field::Width => Field::Palette,
        Field::Height => Field::Width,
        Field::Palette => Field::Height,
    }
}

/// The new-image dialog: width, height and a palette chosen among the
/// names it was given.
pub struct NewImageDialog {
    pub active: bool,
    pub width_buffer: String,
    pub height_buffer: String,
    pub selected_palette: usize,
    pub palette_names: Vec<String>,
    pub selected_field: Field,
    pub error_message: String,
    pub confirmed: bool,
    pub result_width: u16,
    pub result_height: u16,
    pub result_palette_name: String,
    pub result_palette_index: usize,
}

/// The length of a text in UTF-8 bytes (what `str::len` counts, as a
/// `usize`).
pub open spec fn byte_len(s: Seq<char>) -> nat {
    vstd::utf8::encode_utf8(s).len()
}

/// The palette chosen: the selection wrapped to the number of palettes.
pub open spec fn palette_index(d: NewImageDialog) -> int {
    let n = if d.palette_names@.len() > 0 { d.palette_names@.len() as int } else { 1 };
    d.selected_palette as int % n
}

/// What confirming does: the first invalid size is reported and its field
/// selected; otherwise the sizes and palette are recorded and the dialog
/// closes.
pub open spec fn new_image_confirm_post(pre: NewImageDialog, post: NewImageDialog) -> bool {
    let w = size_value(pre.width_buffer@);
    let h = size_value(pre.height_buffer@);
    if w is None {
        &&& post.error_message@ == "Width must be 1-65535"@
        &&& post == (NewImageDialog { error_message: post.error_message, selected_field: Field::Width, ..pre })
    } else if h is None {
        &&& post.error_message@ == "Height must be 1-65535"@
        &&& post == (NewImageDialog { error_message: post.error_message, selected_field: Field::Height, ..pre })
    } else {
        &&& post.result_palette_name@ == pre.palette_names@[palette_index(pre)]@
        &&& post == (NewImageDialog {
            result_width: w.unwrap(),
            result_height: h.unwrap(),
            result_palette_index: palette_index(pre) as usize,
            result_palette_name: post.result_palette_name,
            confirmed: true,
            active: false,
            ..pre
        })
    }
}

/// What a key does in the dialog.
pub open spec fn new_image_key_post(pre: NewImageDialog, post: NewImageDialog, code: KeyCode, used: bool) -> bool {
    let n = if pre.palette_names@.len() > 0 { pre.palette_names@.len() as int } else { 1 };
    let field_only = post == (NewImageDialog { selected_field: post.selected_field, ..pre });
    match code {
        KeyCode::Tab | KeyCode::Down => used && field_only && post.selected_field == field_after(pre.selected_field),
        KeyCode::BackTab | KeyCode::Up => used && field_only && post.selected_field == field_before(pre.selected_field),
        KeyCode::Char(c) => if is_digit_char(c) {
            &&& used
            &&& post.error_message@.len() == 0
            &&& post.width_buffer@ == (if pre.selected_field == Field::Width && (byte_len(pre.width_buffer@) as usize) < 5 { pre.width_buffer@.push(c) } else { pre.width_buffer@ })
            &&& post.height_buffer@ == (if pre.selected_field == Field::Height && (byte_len(pre.height_buffer@) as usize) < 5 { pre.height_buffer@.push(c) } else { pre.height_buffer@ })
            &&& post == (NewImageDialog { width_buffer: post.width_buffer, height_buffer: post.height_buffer, error_message: post.error_message, ..pre })
        } else {
            !used && post == pre
        },
        KeyCode::Backspace => {
            &&& used
            &&& post.error_message@.len() == 0
            &&& post.width_buffer@ == (if pre.selected_field == Field::Width { popped(pre.width_buffer@) } else { pre.width_buffer@ })
            &&& post.height_buffer@ == (if pre.selected_field == Field::Height { popped(pre.height_buffer@) } else { pre.height_buffer@ })
            &&& post == (NewImageDialog { width_buffer: post.width_buffer, height_buffer: post.height_buffer, error_message: post.error_message, ..pre })
        },
        KeyCode::Left => used && if pre.selected_field == Field::Palette {
            post == (NewImageDialog { selected_palette: post.selected_palette, ..pre }) && post.selected_palette == (if pre.selected_palette == 0 { 0 } else if pre.selected_palette - 1 < n - 1 { pre.selected_palette - 1 } else { n - 1 })
        } else {
            field_only && post.selected_field == field_before(pre.selected_field)
        },
        KeyCode::Right => used && if pre.selected_field == Field::Palette {
            post == (NewImageDialog { selected_palette: post.selected_palette, ..pre }) && post.selected_palette == (if pre.selected_palette + 1 < n - 1 { pre.selected_palette + 1 } else { n - 1 })
        } else {
            field_only && post.selected_field == field_after(pre.selected_field)
        },
        KeyCode::Enter => used && new_image_confirm_post(pre, post),
        KeyCode::Esc => used && post.error_message@.len() == 0
            && post == (NewImageDialog { active: false, confirmed: false, error_message: post.error_message, ..pre }),
        _ => !used && post == pre,
    }
}

/// The confirming keys are safe: a valid size needs a palette to name, and
/// moving right cannot overflow.
pub open spec fn new_image_key_ok(d: NewImageDialog, code: KeyCode) -> bool {
    &&& (code == KeyCode::Enter && size_value(d.width_buffer@) is Some && size_value(d.height_buffer@) is Some ==> d.palette_names@.len() > 0)
    &&& (code == KeyCode::Right && d.selected_field == Field::Palette ==> d.selected_palette < usize::MAX)
}

fn default_size(n: u16) -> (s: String)
    ensures
        s@ == decimal(n as nat),
{
    let mut s = String::new();
    push_decimal(&mut s, n as usize);
    s
}

impl NewImageDialog {
    /// A closed dialog for an 80 by 24 image, offering `palette_names`.
    pub fn new(palette_names: Vec<String>) -> (d: NewImageDialog)
        ensures
            !d.active,
            d.width_buffer@ == decimal(80),
            d.height_buffer@ == decimal(24),
            d.selected_palette == 0,
            d.palette_names@ == palette_names@,
            d.selected_field == Field::Width,
            d.error_message@.len() == 0,
            !d.confirmed,
            d.result_width == 80,
            d.result_height == 24,
            d.result_palette_name@.len() == 0,
            d.result_palette_index == 0,
    {
        NewImageDialog {
            active: false,
            width_buffer: default_size(80),
            height_buffer: default_size(24),
            selected_palette: 0,
            palette_names,
            selected_field: Field::Width,
            error_message: String::new(),
            confirmed: false,
            result_width: 80,
            result_height: 24,
            result_palette_name: String::new(),
            result_palette_index: 0,
        }
    }

    /// Open the dialog with the default sizes, the first palette and the
    /// width field selected.
    pub fn enter_new_image(&mut self)
        ensures
            final(self).active,
            final(self).width_buffer@ == decimal(80),
            final(self).height_buffer@ == decimal(24),
            final(self).selected_palette == 0,
            final(self).selected_field == Field::Width,
            final(self).error_message@.len() == 0,
            !final(self).confirmed,
            *final(self) == (NewImageDialog {
                active: true,
                width_buffer: final(self).width_buffer,
                height_buffer: final(self).height_buffer,
                selected_palette: 0,
                selected_field: Field::Width,
                error_message: final(self).error_message,
                confirmed: false,
                ..*old(self)
            }),
    {
        self.active = true;
        self.width_buffer = default_size(80);
        self.height_buffer = default_size(24);
        self.selected_palette = 0;
        self.selected_field = Field::Width;
        self.error_message = String::new();
        self.confirmed = false;
    }

    /// Close the dialog without a choice.
    pub fn close(&mut self)
        ensures
            final(self).error_message@.len() == 0,
            *final(self) == (NewImageDialog { active: false, confirmed: false, error_message: final(self).error_message, ..*old(self) }),
    {
        self.active = false;
        self.confirmed = false;
        self.error_message = String::new();
    }

    /// The name of the chosen palette (`(none)` when there is none).
    pub fn palette_label(&self) -> (r: &str)
        ensures
            self.palette_names@.len() == 0 ==> r@ == "(none)"@,
            self.palette_names@.len() > 0 ==> r@ == self.palette_names@[palette_index(*self)]@,
    {
        if self.palette_names.len() == 0 {
            "(none)"
        } else {
            self.palette_names[self.selected_palette % self.palette_names.len()].as_str()
        }
    }

    /// The width typed: see `size_value`.
    pub fn parse_width(&self) -> (r: Option<u16>)
        ensures
            r == size_value(self.width_buffer@),
    {
        crate::dialogs::gif_import::GifImportDialog::parse_u16(self.width_buffer.as_str())
    }

    /// The height typed: see `size_value`.
    pub fn parse_height(&self) -> (r: Option<u16>)
        ensures
            r == size_value(self.height_buffer@),
    {
        crate::dialogs::gif_import::GifImportDialog::parse_u16(self.height_buffer.as_str())
    }

    /// Confirm the sizes and palette: see `new_image_confirm_post`.
    pub fn confirm(&mut self)
        requires
            size_value(old(self).width_buffer@) is Some && size_value(old(self).height_buffer@) is Some ==> old(self).palette_names@.len() > 0,
        ensures
            new_image_confirm_post(*old(self), *final(self)),
    {
        let w = match self.parse_width() {
            Some(v) => v,
            None => {
                self.error_message = copy_string("Width must be 1-65535");
                self.selected_field = Field::Width;
                return;
            },
        };
        let h = match self.parse_height() {
            Some(v) => v,
            None => {
                self.error_message = copy_string("Height must be 1-65535");
                self.selected_field = Field::Height;
                return;
            },
        };
        self.result_width = w;
        self.result_height = h;
        let n = self.palette_names.len();
        let m: usize = if n > 1 {
            n
        } else {
            1
        };
        let idx = self.selected_palette % m;
        self.result_palette_name = copy_string(self.palette_names[idx].as_str());
        self.result_palette_index = idx;
        self.confirmed = true;
        self.active = false;
    }

    /// A key: see `new_image_key_post`.
    pub fn handle_key(&mut self, code: KeyCode) -> (used: bool)
        requires
            new_image_key_ok(*old(self), code),
        ensures
            new_image_key_post(*old(self), *final(self), code, used),
    {
        match code {
            KeyCode::Tab | KeyCode::Down => {
                self.selected_field = next_field(self.selected_field);
                true
            },
            KeyCode::BackTab | KeyCode::Up => {
                self.selected_field = prev_field(self.selected_field);
                true
            },
            KeyCode::Char(c) => {
                if is_ascii_digit(c) {
                    if self.selected_field == Field::Width {
                        if self.width_buffer.as_str().len() < 5 {
                            push_char(&mut self.width_buffer, c);
                        }
                    } else if self.selected_field == Field::Height {
                        if self.height_buffer.as_str().len() < 5 {
                            push_char(&mut self.height_buffer, c);
                        }
                    }
                    self.error_message = String::new();
                    true
                } else {
                    false
                }
            },
            KeyCode::Backspace => {
                if self.selected_field == Field::Width {
                    pop_char(&mut self.width_buffer);
                } else if self.selected_field == Field::Height {
                    pop_char(&mut self.height_buffer);
                }
                self.error_message = String::new();
                true
            },
            KeyCode::Left => {
                if self.selected_field == Field::Palette {
                    let len = self.palette_names.len();
                    let n: usize = if len > 1 {
                        len
                    } else {
                        1
                    };
                    let s = if self.selected_palette > 0 {
                        self.selected_palette - 1
                    } else {
                        0
                    };
                    self.selected_palette = if s < n - 1 {
                        s
                    } else {
                        n - 1
                    };
                } else {
                    self.selected_field = prev_field(self.selected_field);
                }
                true
            },
            KeyCode::Right => {
                if self.selected_field == Field::Palette {
                    let len = self.palette_names.len();
                    let n: usize = if len > 1 {
                        len
                    } else {
                        1
                    };
                    let s = self.selected_palette + 1;
                    self.selected_palette = if s < n - 1 {
                        s
                    } else {
                        n - 1
                    };
                } else {
                    self.selected_field = next_field(self.selected_field);
                }
                true
            },
            KeyCode::Enter => {
                self.confirm();
                true
            },
            KeyCode::Esc => {
                self.close();
                true
            },
            _ => false,
        }
    }
}

fn next_field(f: Field) -> (r: Field)
    ensures
        r == field_after(f),
{
    match f {
        Field::Width => Field::Height,
        Field::Height => Field::Palette,
        Field::Palette => Field::Width,
    }
}

fn prev_field(f: Field) -> (r: Field)
    ensures
        r == field_before(f),
{
    match f {
        Field::Width => Field::Palette,
        Field::Height => Field::Width,
        Field::Palette => Field::Height,
    }
}


/// Moving to the field before undoes moving to the field after and back,
/// and three moves forward come back to the start.
pub proof fn law_new_image_field_cycle(f: Field)
    ensures
        field_before(field_after(f)) == f,
        field_after(field_before(f)) == f,
        field_after(field_after(field_after(f))) == f,
{
}

} // verus!
