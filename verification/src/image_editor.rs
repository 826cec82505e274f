use vstd::prelude::*;

use crate::font_editor::{popped, push_i32, signed_decimal};
use crate::keys::KeyCode;
use crate::text::{copy_string, decimal, pop_char, push_char, push_decimal, push_str};

verus! {

/// How an image is drawn as characters.
#[derive(Debug, Clone, Copy, PartialEq, Eq, Structural)]
pub enum AsciiMode {
    Color,
    Grayscale,
}

/// Which image adjustment the `+` and `-` keys change (`Off`: none).
#[derive(Debug, Clone, Copy, PartialEq, Eq, Structural)]
pub enum AdjustmentMode {
    Off,
    Brightness,
    Contrast,
    Threshold,
    TargetWidth,
}

/// The settings of the image editor: how the loaded image is turned into
/// characters, and the path being typed. The image itself, the contrast
/// factor and the cells drawn from them are the caller's.
pub struct ImageEditor {
    pub mode: AsciiMode,
    pub target_width: usize,
    pub entering_path: bool,
    pub path_buffer: String,
    pub error_message: Option<String>,
    pub adjustment_mode: AdjustmentMode,
    pub brightness: i16,
    pub threshold: u8,
    pub dither: bool,
    pub invert: bool,
    pub braille: bool,
}

/// What the caller is to do after a key.
#[derive(Debug, Clone, PartialEq, Eq)]
pub enum ImageEffect {
    /// Nothing.
    Nothing,
    /// Draw the image again with the new settings.
    Reapply,
    /// Raise the contrast factor by a tenth (at most 5), then draw again.
    ContrastUp,
    /// Lower the contrast factor by a tenth (at least 0), then draw again.
    ContrastDown,
    /// Set the contrast factor back to 1, then draw again.
    Reset,
    /// Load the image at this path (see `finish_load`).
    Load(String),
}

/// The settings with every adjustment back at its default.
pub open spec fn reset_of(e: ImageEditor) -> ImageEditor {
    ImageEditor {
        adjustment_mode: AdjustmentMode::Off,
        brightness: 0,
        threshold: 128,
        dither: false,
        invert: false,
        braille: false,
        ..e
    }
}

/// The other drawing mode.
pub open spec fn other_mode(m: AsciiMode) -> AsciiMode {
    match m {
        AsciiMode::Color => AsciiMode::Grayscale,
        AsciiMode::Grayscale => AsciiMode::Color,
    }
}

/// The adjustment a key selects, if it selects one.
pub open spec fn selected_adjustment(c: char) -> Option<AdjustmentMode> {
    if c == 'b' {
        Some(AdjustmentMode::Brightness)
    } else if c == 'k' {
        Some(AdjustmentMode::Contrast)
    } else if c == 't' {
        Some(AdjustmentMode::Threshold)
    } else if c == 'w' {
        Some(AdjustmentMode::TargetWidth)
    } else {
        None
    }
}

/// The settings after `+` (`up`) or `-` on the selected adjustment:
/// brightness by 5 within [-255, 255], threshold by 8 within a byte, the
/// width by 4 within [1, 1000]; the contrast is the caller's.
pub open spec fn stepped(e: ImageEditor, up: bool) -> ImageEditor {
    match e.adjustment_mode {
        AdjustmentMode::Brightness => ImageEditor {
            brightness: if up {
                if e.brightness + 5 < 255 { (e.brightness + 5) as i16 } else { 255 }
            } else {
                if e.brightness - 5 > -255 { (e.brightness - 5) as i16 } else { -255i16 }
            },
            ..e
        },
        AdjustmentMode::Threshold => ImageEditor {
            threshold: if up {
                if e.threshold + 8 > 255 { 255 } else { (e.threshold + 8) as u8 }
            } else {
                if e.threshold < 8 { 0 } else { (e.threshold - 8) as u8 }
            },
            ..e
        },
        AdjustmentMode::TargetWidth => ImageEditor {
            target_width: if up {
                if e.target_width + 4 < 1000 { (e.target_width + 4) as usize } else { 1000 }
            } else {
                if e.target_width >= 5 { (e.target_width - 4) as usize } else { 1 }
            },
            ..e
        },
        _ => e,
    }
}

/// What a key does to the settings, what the caller is to do, and whether
/// the key was taken. While a path is typed every key is taken: Enter asks
/// to load a non-empty path. Otherwise `o` starts typing a path, `c`
/// switches colour, `b` `k` `t` `w` select an adjustment, `i` `d` `y` flip
/// inversion, dithering and braille, `r` resets, `+` and `-` step the
/// selected adjustment and Esc leaves it.
pub open spec fn image_key_post(pre: ImageEditor, post: ImageEditor, code: KeyCode, effect: ImageEffect, used: bool) -> bool {
    if pre.entering_path {
        used && match code {
            KeyCode::Char(c) => effect == ImageEffect::Nothing && post.path_buffer@ == pre.path_buffer@.push(c)
                && post == (ImageEditor { path_buffer: post.path_buffer, ..pre }),
            KeyCode::Enter => post.path_buffer@.len() == 0 && post == (ImageEditor { path_buffer: post.path_buffer, entering_path: false, ..pre })
                && if pre.path_buffer@.len() > 0 {
                    effect matches ImageEffect::Load(p) && p@ == pre.path_buffer@
                } else {
                    effect == ImageEffect::Nothing
                },
            KeyCode::Esc => effect == ImageEffect::Nothing && post.path_buffer@.len() == 0
                && post == (ImageEditor { path_buffer: post.path_buffer, entering_path: false, ..pre }),
            KeyCode::Backspace => effect == ImageEffect::Nothing && post.path_buffer@ == popped(pre.path_buffer@)
                && post == (ImageEditor { path_buffer: post.path_buffer, ..pre }),
            _ => effect == ImageEffect::Nothing && post == pre,
        }
    } else {
        let unused = !used && effect == ImageEffect::Nothing && post == pre;
        match code {
            KeyCode::Char(c) => if c == 'o' || c == 'O' {
                used && effect == ImageEffect::Nothing && post.path_buffer@.len() == 0
                    && post == (ImageEditor { entering_path: true, path_buffer: post.path_buffer, error_message: None, ..pre })
            } else if c == 'c' || c == 'C' {
                used && effect == ImageEffect::Reapply && post == (ImageEditor { mode: other_mode(pre.mode), ..pre })
            } else if selected_adjustment(c) is Some {
                used && effect == ImageEffect::Nothing && post == (ImageEditor { adjustment_mode: selected_adjustment(c).unwrap(), ..pre })
            } else if c == 'i' || c == 'I' {
                used && effect == ImageEffect::Reapply && post == (ImageEditor { invert: !pre.invert, ..pre })
            } else if c == 'd' || c == 'D' {
                used && effect == ImageEffect::Reapply && post == (ImageEditor { dither: !pre.dither, ..pre })
            } else if c == 'y' || c == 'Y' {
                used && effect == ImageEffect::Reapply && post == (ImageEditor { braille: !pre.braille, ..pre })
            } else if c == 'r' || c == 'R' {
                used && effect == ImageEffect::Reset && post == reset_of(pre)
            } else if (c == '+' || c == '=' || c == '-' || c == '_') && pre.adjustment_mode != AdjustmentMode::Off {
                let up = c == '+' || c == '=';
                &&& used
                &&& post == stepped(pre, up)
                &&& effect == (if pre.adjustment_mode == AdjustmentMode::Contrast {
                    if up { ImageEffect::ContrastUp } else { ImageEffect::ContrastDown }
                } else {
                    ImageEffect::Reapply
                })
            } else {
                unused
            },
            KeyCode::Esc => if pre.adjustment_mode != AdjustmentMode::Off {
                used && effect == ImageEffect::Nothing && post == (ImageEditor { adjustment_mode: AdjustmentMode::Off, ..pre })
            } else {
                unused
            },
            _ => unused,
        }
    }
}

/// A key cannot push a setting past the range of its type.
pub open spec fn steps_fit(e: ImageEditor) -> bool {
    &&& i16::MIN + 5 <= e.brightness <= i16::MAX - 5
    &&& e.target_width <= usize::MAX - 4
}

/// `parts` joined with single spaces.
pub open spec fn spaced(parts: Seq<Seq<char>>) -> Seq<char>
    decreases parts.len(),
{
    if parts.len() == 0 {
        Seq::empty()
    } else if parts.len() == 1 {
        parts[0]
    } else {
        spaced(parts.drop_last()) + seq![' '] + parts.last()
    }
}

/// The word for the selected adjustment, if any.
pub open spec fn adjustment_part(e: ImageEditor, contrast_text: Seq<char>) -> Seq<Seq<char>> {
    match e.adjustment_mode {
        AdjustmentMode::Brightness => seq!["Brightness["@ + signed_decimal(e.brightness as int) + "]"@],
        AdjustmentMode::Contrast => seq!["Contrast["@ + contrast_text + "]"@],
        AdjustmentMode::Threshold => seq!["Threshold["@ + decimal(e.threshold as nat) + "]"@],
        AdjustmentMode::TargetWidth => seq!["Width["@ + decimal(e.target_width as nat) + "]"@],
        AdjustmentMode::Off => Seq::empty(),
    }
}

/// The word for a changed brightness, with its sign.
pub open spec fn brightness_part(e: ImageEditor) -> Seq<Seq<char>> {
    if e.brightness != 0 {
        seq!["B:"@ + (if e.brightness > 0 { "+"@ } else { Seq::empty() }) + signed_decimal(e.brightness as int)]
    } else {
        Seq::empty()
    }
}

/// The words for a changed contrast, the switches that are on, and the
/// drawing mode.
pub open spec fn flag_parts(e: ImageEditor, contrast_text: Seq<char>, contrast_changed: bool) -> Seq<Seq<char>> {
    let contrast = if contrast_changed { seq!["C:"@ + contrast_text] } else { Seq::empty() };
    let inv = if e.invert { seq!["Inv"@] } else { Seq::empty() };
    let brl = if e.braille { seq!["Braille"@] } else { Seq::empty() };
    let dth = if e.dither { seq!["Dither"@] } else { Seq::empty() };
    let mode = match e.mode {
        AsciiMode::Color => "Color"@,
        AsciiMode::Grayscale => "Gray"@,
    };
    contrast + inv + brl + dth + seq![mode]
}

/// The words of the status line, given the contrast factor as it is shown
/// (`contrast_text`) and whether it differs from 1.
pub open spec fn status_parts(e: ImageEditor, contrast_text: Seq<char>, contrast_changed: bool) -> Seq<Seq<char>> {
    adjustment_part(e, contrast_text) + brightness_part(e) + flag_parts(e, contrast_text, contrast_changed)
}

fn word(prefix: &str, middle: &str, suffix: &str) -> (s: String)
    ensures
        s@ == prefix@ + middle@ + suffix@,
{
    let mut s = String::new();
    push_str(&mut s, prefix);
    push_str(&mut s, middle);
    push_str(&mut s, suffix);
    s
}

fn push_word(parts: &mut Vec<String>, w: String)
    ensures
        final(parts)@.len() == old(parts)@.len() + 1,
        crate::text::strings_view(final(parts)@) == crate::text::strings_view(old(parts)@).push(w@),
{
    let ghost before = parts@;
    parts.push(w);
    assert(crate::text::strings_view(parts@) =~= crate::text::strings_view(before).push(w@));
}

/// The words joined with single spaces, in square brackets.
fn bracketed(parts: &Vec<String>) -> (s: String)
    ensures
        s@ == "["@ + spaced(crate::text::strings_view(parts@)) + "]"@,
{
    let ghost expected = crate::text::strings_view(parts@);
    let mut s = copy_string("[");
    let mut i: usize = 0;
    while i < parts.len()
        invariant
            i <= parts@.len(),
            crate::text::strings_view(parts@) == expected,
            s@ == "["@ + spaced(expected.take(i as int)),
        decreases parts@.len() - i,
    {
        assert(expected.take(i + 1).drop_last() =~= expected.take(i as int));
        assert(expected.take(i + 1).last() == parts@[i as int]@);
        if i > 0 {
            push_char(&mut s, ' ');
        }
        push_str(&mut s, parts[i].as_str());
        i = i + 1;
        assert(s@ =~= "["@ + spaced(expected.take(i as int)));
    }
    assert(expected.take(i as int) =~= expected);
    push_str(&mut s, "]");
    s
}

impl ImageEditor {
    /// Gray, 80 columns wide, no path typed, no error, every adjustment at
    /// its default.
    pub fn new() -> (e: ImageEditor)
        ensures
            e.mode == AsciiMode::Grayscale,
            e.target_width == 80,
            !e.entering_path,
            e.path_buffer@.len() == 0,
            e.error_message is None,
            e.adjustment_mode == AdjustmentMode::Off,
            e.brightness == 0,
            e.threshold == 128,
            !e.dither && !e.invert && !e.braille,
    {
        ImageEditor {
            mode: AsciiMode::Grayscale,
            target_width: 80,
            entering_path: false,
            path_buffer: String::new(),
            error_message: None,
            adjustment_mode: AdjustmentMode::Off,
            brightness: 0,
            threshold: 128,
            dither: false,
            invert: false,
            braille: false,
        }
    }

    pub fn mode(&self) -> (m: AsciiMode)
        ensures
            m == self.mode,
    {
        self.mode
    }

    pub fn entering_path(&self) -> (b: bool)
        ensures
            b == self.entering_path,
    {
        self.entering_path
    }

    pub fn path_buffer(&self) -> (s: &str)
        ensures
            s@ == self.path_buffer@,
    {
        self.path_buffer.as_str()
    }

    pub fn error_message(&self) -> (m: Option<&str>)
        ensures
            match self.error_message {
                Some(e) => m matches Some(t) && t@ == e@,
                None => m is None,
            },
    {
        match &self.error_message {
            Some(e) => Some(e.as_str()),
            None => None,
        }
    }

    pub fn clear_error(&mut self)
        ensures
            *final(self) == (ImageEditor { error_message: None, ..*old(self) }),
    {
        self.error_message = None;
    }

    pub fn brightness(&self) -> (b: i16)
        ensures
            b == self.brightness,
    {
        self.brightness
    }

    pub fn threshold(&self) -> (t: u8)
        ensures
            t == self.threshold,
    {
        self.threshold
    }

    pub fn dither(&self) -> (b: bool)
        ensures
            b == self.dither,
    {
        self.dither
    }

    pub fn invert(&self) -> (b: bool)
        ensures
            b == self.invert,
    {
        self.invert
    }

    pub fn braille(&self) -> (b: bool)
        ensures
            b == self.braille,
    {
        self.braille
    }

    pub fn adjustment_mode(&self) -> (m: AdjustmentMode)
        ensures
            m == self.adjustment_mode,
    {
        self.adjustment_mode
    }

    /// Every adjustment back to its default (the caller resets the
    /// contrast and draws again).
    pub fn reset_adjustments(&mut self)
        ensures
            *final(self) == reset_of(*old(self)),
    {
        self.adjustment_mode = AdjustmentMode::Off;
        self.brightness = 0;
        self.threshold = 128;
        self.dither = false;
        self.invert = false;
        self.braille = false;
    }

    /// Switch between colour and gray (the caller draws again).
    pub fn toggle_mode(&mut self)
        ensures
            *final(self) == (ImageEditor { mode: other_mode(old(self).mode), ..*old(self) }),
    {
        self.mode = match self.mode {
            AsciiMode::Color => AsciiMode::Grayscale,
            AsciiMode::Grayscale => AsciiMode::Color,
        };
    }

    /// Take what loading an image gave: `Err` with the reader's message, or
    /// `Ok` with its height and the width of its first row. Returns whether
    /// the image is taken; then the error is cleared and the adjustments
    /// reset (the caller keeps the image, resets the contrast and draws);
    /// otherwise the error is recorded.
    pub fn finish_load(&mut self, loaded: Result<(usize, usize), String>) -> (taken: bool)
        ensures
            match loaded {
                Err(e) => !taken && (final(self).error_message matches Some(m) && m@ == "Failed to load image: "@ + e@)
                    && *final(self) == (ImageEditor { error_message: final(self).error_message, ..*old(self) }),
                Ok((h, w)) => if h == 0 || w == 0 {
                    !taken && (final(self).error_message matches Some(m) && m@ == "Loaded image is empty"@)
                        && *final(self) == (ImageEditor { error_message: final(self).error_message, ..*old(self) })
                } else {
                    taken && *final(self) == reset_of(ImageEditor { error_message: None, ..*old(self) })
                },
            },
    {
        proof {
            reveal_strlit("Loaded image is empty");
        }
        match loaded {
            Err(e) => {
                self.error_message = Some(word("Failed to load image: ", e.as_str(), ""));
                proof {
                    reveal_strlit("");
                }
                false
            },
            Ok((h, w)) => {
                if h == 0 || w == 0 {
                    self.error_message = Some(copy_string("Loaded image is empty"));
                    false
                } else {
                    self.error_message = None;
                    self.reset_adjustments();
                    true
                }
            },
        }
    }

    fn adjustment_words(&self, contrast_text: &str, parts: &mut Vec<String>)
        ensures
            crate::text::strings_view(final(parts)@) == crate::text::strings_view(old(parts)@) + adjustment_part(*self, contrast_text@),
    {
        proof {
            reveal_strlit("]");
        }
        let ghost before = crate::text::strings_view(parts@);
        match self.adjustment_mode {
            AdjustmentMode::Brightness => {
                let mut w = copy_string("Brightness[");
                push_i32(&mut w, self.brightness as i32);
                push_str(&mut w, "]");
                push_word(parts, w);
            },
            AdjustmentMode::Contrast => {
                push_word(parts, word("Contrast[", contrast_text, "]"));
            },
            AdjustmentMode::Threshold => {
                let mut w = copy_string("Threshold[");
                push_decimal(&mut w, self.threshold as usize);
                push_str(&mut w, "]");
                push_word(parts, w);
            },
            AdjustmentMode::TargetWidth => {
                let mut w = copy_string("Width[");
                push_decimal(&mut w, self.target_width);
                push_str(&mut w, "]");
                push_word(parts, w);
            },
            AdjustmentMode::Off => {},
        }
        assert(crate::text::strings_view(parts@) =~= before + adjustment_part(*self, contrast_text@));
    }

    fn brightness_words(&self, parts: &mut Vec<String>)
        ensures
            crate::text::strings_view(final(parts)@) == crate::text::strings_view(old(parts)@) + brightness_part(*self),
    {
        proof {
            reveal_strlit("+");
        }
        let ghost before = crate::text::strings_view(parts@);
        if self.brightness != 0 {
            let mut w = copy_string("B:");
            if self.brightness > 0 {
                push_str(&mut w, "+");
            }
            push_i32(&mut w, self.brightness as i32);
            assert(w@ =~= "B:"@ + (if self.brightness > 0 { "+"@ } else { Seq::empty() }) + signed_decimal(self.brightness as int));
            push_word(parts, w);
        }
        assert(crate::text::strings_view(parts@) =~= before + brightness_part(*self));
    }

    fn flag_words(&self, contrast_text: &str, contrast_changed: bool, parts: &mut Vec<String>)
        ensures
            crate::text::strings_view(final(parts)@) == crate::text::strings_view(old(parts)@) + flag_parts(*self, contrast_text@, contrast_changed),
    {
        proof {
            reveal_strlit("");
        }
        let ghost before = crate::text::strings_view(parts@);
        if contrast_changed {
            push_word(parts, word("C:", contrast_text, ""));
        }
        if self.invert {
            push_word(parts, copy_string("Inv"));
        }
        if self.braille {
            push_word(parts, copy_string("Braille"));
        }
        if self.dither {
            push_word(parts, copy_string("Dither"));
        }
        let mode = match self.mode {
            AsciiMode::Color => "Color",
            AsciiMode::Grayscale => "Gray",
        };
        push_word(parts, copy_string(mode));
        assert(crate::text::strings_view(parts@) =~= before + flag_parts(*self, contrast_text@, contrast_changed));
    }

    /// The status line: see `status_parts`, in square brackets.
    pub fn adjustment_status(&self, contrast_text: &str, contrast_changed: bool) -> (s: String)
        ensures
            s@ == "["@ + spaced(status_parts(*self, contrast_text@, contrast_changed)) + "]"@,
    {
        let mut parts: Vec<String> = Vec::new();
        self.adjustment_words(contrast_text, &mut parts);
        self.brightness_words(&mut parts);
        self.flag_words(contrast_text, contrast_changed, &mut parts);
        let ghost expected = status_parts(*self, contrast_text@, contrast_changed);
        assert(crate::text::strings_view(parts@) =~= expected);
        bracketed(&parts)
    }

    /// A key: see `image_key_post`. Returns whether it was taken and what
    /// the caller is to do.
    pub fn handle_key(&mut self, code: KeyCode) -> (r: (bool, ImageEffect))
        requires
            steps_fit(*old(self)),
        ensures
            image_key_post(*old(self), *final(self), code, r.1, r.0),
    {
        if self.entering_path {
            let effect = match code {
                KeyCode::Char(c) => {
                    push_char(&mut self.path_buffer, c);
                    ImageEffect::Nothing
                },
                KeyCode::Enter => {
                    let path = copy_string(self.path_buffer.as_str());
                    self.path_buffer = String::new();
                    self.entering_path = false;
                    if path.unicode_len() > 0 {
                        ImageEffect::Load(path)
                    } else {
                        ImageEffect::Nothing
                    }
                },
                KeyCode::Esc => {
                    self.entering_path = false;
                    self.path_buffer = String::new();
                    ImageEffect::Nothing
                },
                KeyCode::Backspace => {
                    pop_char(&mut self.path_buffer);
                    ImageEffect::Nothing
                },
                _ => ImageEffect::Nothing,
            };
            return (true, effect);
        }
        match code {
            KeyCode::Char(c) => {
                if c == 'o' || c == 'O' {
                    self.entering_path = true;
                    self.path_buffer = String::new();
                    self.error_message = None;
                    (true, ImageEffect::Nothing)
                } else if c == 'c' || c == 'C' {
                    self.toggle_mode();
                    (true, ImageEffect::Reapply)
                } else if c == 'b' {
                    self.adjustment_mode = AdjustmentMode::Brightness;
                    (true, ImageEffect::Nothing)
                } else if c == 'k' {
                    self.adjustment_mode = AdjustmentMode::Contrast;
                    (true, ImageEffect::Nothing)
                } else if c == 't' {
                    self.adjustment_mode = AdjustmentMode::Threshold;
                    (true, ImageEffect::Nothing)
                } else if c == 'w' {
                    self.adjustment_mode = AdjustmentMode::TargetWidth;
                    (true, ImageEffect::Nothing)
                } else if c == 'i' || c == 'I' {
                    self.invert = !self.invert;
                    (true, ImageEffect::Reapply)
                } else if c == 'd' || c == 'D' {
                    self.dither = !self.dither;
                    (true, ImageEffect::Reapply)
                } else if c == 'y' || c == 'Y' {
                    self.braille = !self.braille;
                    (true, ImageEffect::Reapply)
                } else if c == 'r' || c == 'R' {
                    self.reset_adjustments();
                    (true, ImageEffect::Reset)
                } else if (c == '+' || c == '=' || c == '-' || c == '_') && self.adjustment_mode != AdjustmentMode::Off {
                    let up = c == '+' || c == '=';
                    let mut effect = ImageEffect::Reapply;
                    match self.adjustment_mode {
                        AdjustmentMode::Brightness => {
                            self.brightness = if up {
                                if self.brightness + 5 < 255 { self.brightness + 5 } else { 255 }
                            } else {
                                if self.brightness - 5 > -255 { self.brightness - 5 } else { -255 }
                            };
                        },
                        AdjustmentMode::Contrast => {
                            effect = if up { ImageEffect::ContrastUp } else { ImageEffect::ContrastDown };
                        },
                        AdjustmentMode::Threshold => {
                            self.threshold = if up {
                                if self.threshold > 247 { 255 } else { self.threshold + 8 }
                            } else {
                                if self.threshold < 8 { 0 } else { self.threshold - 8 }
                            };
                        },
                        AdjustmentMode::TargetWidth => {
                            self.target_width = if up {
                                if self.target_width + 4 < 1000 { self.target_width + 4 } else { 1000 }
                            } else {
                                if self.target_width >= 5 { self.target_width - 4 } else { 1 }
                            };
                        },
                        AdjustmentMode::Off => {},
                    }
                    (true, effect)
                } else {
                    (false, ImageEffect::Nothing)
                }
            },
            KeyCode::Esc => {
                if self.adjustment_mode != AdjustmentMode::Off {
                    self.adjustment_mode = AdjustmentMode::Off;
                    (true, ImageEffect::Nothing)
                } else {
                    (false, ImageEffect::Nothing)
                }
            },
            _ => (false, ImageEffect::Nothing),
        }
    }
}

impl Default for ImageEditor {
    fn default() -> (e: ImageEditor)
        ensures
            e.mode == AsciiMode::Grayscale,
            e.adjustment_mode == AdjustmentMode::Off,
    {
        ImageEditor::new()
    }
}

} // verus!
