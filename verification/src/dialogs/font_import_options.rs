use vstd::prelude::*;

use crate::dialogs::new_image::byte_len;
use crate::dialogs::system_font::{charset_name, charset_of, CHARSET_COUNT};
use crate::font_editor::popped;
use crate::keys::{is_ascii_digit, is_digit_char, KeyCode};
use crate::text::{contains_str, contains_text, copy_string, pop_char, push_char};

verus! {

/// The fields of the font import options dialog.
#[derive(Debug, Clone, Copy, PartialEq, Eq, Structural)]
pub enum Field {
    Size,
    Charset,
}

/// The options asked for before a font file is converted: the glyph size
/// (typed) and the character set. Whether the typed size is a number from
/// 4 to 200 is the caller's to tell (`size_ok`); the caller keeps the size
/// itself.
pub struct FontImportOptionsDialog {
    pub active: bool,
    pub path: String,
    pub size_buffer: String,
    pub charset_index: usize,
    pub selected_field: Field,
    pub error_message: String,
    pub confirmed: bool,
    pub result_charset: String,
}

/// What confirming does: an invalid size is refused with a message and its
/// field selected; otherwise the character set is recorded and the dialog
/// closes.
pub open spec fn options_confirm_post(pre: FontImportOptionsDialog, post: FontImportOptionsDialog, size_ok: bool) -> bool {
    if !size_ok {
        &&& post.error_message@ == "Size must be 4-200"@
        &&& post == (FontImportOptionsDialog { error_message: post.error_message, selected_field: Field::Size, ..pre })
    } else {
        &&& post.result_charset@ == charset_of(pre.charset_index as int)
        &&& post == (FontImportOptionsDialog { result_charset: post.result_charset, confirmed: true, active: false, ..pre })
    }
}

/// The character set after stepping forward or back, wrapping around.
pub open spec fn cycled_charset(i: usize, forward: bool) -> usize {
    if forward {
        ((i + 1) % (CHARSET_COUNT as int)) as usize
    } else {
        ((i + CHARSET_COUNT - 1) % (CHARSET_COUNT as int)) as usize
    }
}

/// What a key does: Tab switches field; Left and Right step the character
/// set while it is selected; in the size field digits are typed (up to
/// three bytes), a single `.` is allowed and Backspace erases; Enter
/// confirms (see `options_confirm_post`) and Esc closes.
pub open spec fn options_key_post(pre: FontImportOptionsDialog, post: FontImportOptionsDialog, code: KeyCode, size_ok: bool, used: bool) -> bool {
    let on_size = pre.selected_field == Field::Size;
    let on_charset = pre.selected_field == Field::Charset;
    match code {
        KeyCode::Tab => used && post == (FontImportOptionsDialog {
            selected_field: if on_size { Field::Charset } else { Field::Size },
            ..pre
        }),
        KeyCode::Left => if on_charset {
            used && post == (FontImportOptionsDialog { charset_index: cycled_charset(pre.charset_index, false), ..pre })
        } else {
            !used && post == pre
        },
        KeyCode::Right => if on_charset {
            used && post == (FontImportOptionsDialog { charset_index: cycled_charset(pre.charset_index, true), ..pre })
        } else {
            !used && post == pre
        },
        KeyCode::Char(c) => if on_size && is_digit_char(c) {
            &&& used
            &&& post.size_buffer@ == (if (byte_len(pre.size_buffer@) as usize) < 3 { pre.size_buffer@.push(c) } else { pre.size_buffer@ })
            &&& post.error_message@.len() == 0
            &&& post == (FontImportOptionsDialog { size_buffer: post.size_buffer, error_message: post.error_message, ..pre })
        } else if on_size && c == '.' {
            &&& used
            &&& post.size_buffer@ == (if contains_text(pre.size_buffer@, "."@) { pre.size_buffer@ } else { pre.size_buffer@.push('.') })
            &&& post == (FontImportOptionsDialog { size_buffer: post.size_buffer, ..pre })
        } else {
            !used && post == pre
        },
        KeyCode::Backspace => if on_size {
            &&& used
            &&& post.size_buffer@ == popped(pre.size_buffer@)
            &&& post.error_message@.len() == 0
            &&& post == (FontImportOptionsDialog { size_buffer: post.size_buffer, error_message: post.error_message, ..pre })
        } else {
            !used && post == pre
        },
        KeyCode::Enter => used && options_confirm_post(pre, post, size_ok),
        KeyCode::Esc => used && post == (FontImportOptionsDialog { active: false, confirmed: false, ..pre }),
        _ => !used && post == pre,
    }
}

impl FontImportOptionsDialog {
    /// A closed dialog: size 12, the first character set.
    pub fn new() -> (d: FontImportOptionsDialog)
        ensures
            !d.active,
            d.path@.len() == 0,
            d.size_buffer@ == "12"@,
            d.charset_index == 0,
            d.selected_field == Field::Size,
            d.error_message@.len() == 0,
            !d.confirmed,
            d.result_charset@ == charset_of(0),
    {
        FontImportOptionsDialog {
            active: false,
            path: String::new(),
            size_buffer: copy_string("12"),
            charset_index: 0,
            selected_field: Field::Size,
            error_message: String::new(),
            confirmed: false,
            result_charset: copy_string(charset_name(0)),
        }
    }

    /// Open the dialog for the font file at `path`, with the defaults.
    pub fn enter(&mut self, path: String)
        ensures
            final(self).active,
            final(self).path == path,
            final(self).size_buffer@ == "12"@,
            final(self).charset_index == 0,
            final(self).selected_field == Field::Size,
            final(self).error_message@.len() == 0,
            !final(self).confirmed,
            final(self).result_charset == old(self).result_charset,
    {
        self.active = true;
        self.path = path;
        self.size_buffer = copy_string("12");
        self.charset_index = 0;
        self.selected_field = Field::Size;
        self.error_message = String::new();
        self.confirmed = false;
    }

    /// Close the dialog without confirming.
    pub fn close(&mut self)
        ensures
            *final(self) == (FontImportOptionsDialog { active: false, confirmed: false, ..*old(self) }),
    {
        self.active = false;
        self.confirmed = false;
    }

    /// Step the character set forward or back, wrapping around.
    pub fn cycle_charset(&mut self, forward: bool)
        requires
            old(self).charset_index + CHARSET_COUNT <= usize::MAX,
        ensures
            *final(self) == (FontImportOptionsDialog { charset_index: cycled_charset(old(self).charset_index, forward), ..*old(self) }),
    {
        self.charset_index = if forward {
            (self.charset_index + 1) % CHARSET_COUNT
        } else {
            (self.charset_index + CHARSET_COUNT - 1) % CHARSET_COUNT
        };
    }

    /// Confirm, `size_ok` telling whether the typed size is valid: see
    /// `options_confirm_post`.
    pub fn confirm(&mut self, size_ok: bool)
        requires
            size_ok ==> old(self).charset_index < CHARSET_COUNT,
        ensures
            options_confirm_post(*old(self), *final(self), size_ok),
    {
        if !size_ok {
            self.error_message = copy_string("Size must be 4-200");
            self.selected_field = Field::Size;
            return;
        }
        self.result_charset = copy_string(charset_name(self.charset_index));
        self.confirmed = true;
        self.active = false;
    }

    /// A key: see `options_key_post`.
    pub fn handle_key(&mut self, code: KeyCode, size_ok: bool) -> (used: bool)
        requires
            old(self).charset_index + CHARSET_COUNT <= usize::MAX,
            code == KeyCode::Enter && size_ok ==> old(self).charset_index < CHARSET_COUNT,
        ensures
            options_key_post(*old(self), *final(self), code, size_ok, used),
    {
        let on_size = self.selected_field == Field::Size;
        let on_charset = self.selected_field == Field::Charset;
        match code {
            KeyCode::Tab => {
                self.selected_field = if on_size { Field::Charset } else { Field::Size };
                true
            },
            KeyCode::Left => {
                if on_charset {
                    self.cycle_charset(false);
                }
                on_charset
            },
            KeyCode::Right => {
                if on_charset {
                    self.cycle_charset(true);
                }
                on_charset
            },
            KeyCode::Char(c) => {
                if on_size && is_ascii_digit(c) {
                    if self.size_buffer.as_str().len() < 3 {
                        push_char(&mut self.size_buffer, c);
                    }
                    self.error_message = String::new();
                    true
                } else if on_size && c == '.' {
                    if !contains_str(self.size_buffer.as_str(), ".") {
                        push_char(&mut self.size_buffer, '.');
                    }
                    true
                } else {
                    false
                }
            },
            KeyCode::Backspace => {
                if on_size {
                    pop_char(&mut self.size_buffer);
                    self.error_message = String::new();
                }
                on_size
            },
            KeyCode::Enter => {
                self.confirm(size_ok);
                true
            },
            KeyCode::Esc => {
                self.close();
                true
            },
            _ => false,
        }
    }
}

impl Default for FontImportOptionsDialog {
    fn default() -> (d: FontImportOptionsDialog)
        ensures
            !d.active,
            d.charset_index == 0,
    {
        FontImportOptionsDialog::new()
    }
}

} // verus!
