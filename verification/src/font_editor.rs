use vstd::prelude::*;

use std::collections::HashMap;

use crate::canvas::CanvasBuffer;
use crate::font::{
    blank_rows, copy_rows, glyph_width, glyphs, sorted_codes, sorted_codes_of, strictly_increasing,
    FIGcharacter, FIGfont,
};
use crate::keys::{is_control, is_digit_char, KeyCode, KeyModifiers, MOD_CONTROL};
use crate::text::{
    contains_str, contains_text, copy_string, decimal, hex_upper, lowercase, parse_i32, parse_u32,
    parsed_i32, parsed_u32, pop_char, push_char, push_decimal, push_hex_upper, push_str,
    strings_view, to_lowercase, trim, trimmed,
};

verus! {

broadcast use vstd::std_specs::hash::group_hash_axioms;

/// Smushing rule 1: equal characters.
pub const SMUSH_EQUAL_CHARS: u32 = 1;

/// Smushing rule 2: underscores.
pub const SMUSH_UNDERSCORE: u32 = 2;

/// Smushing rule 3: hierarchy.
pub const SMUSH_HIERARCHY: u32 = 4;

/// Smushing rule 4: opposite pairs.
pub const SMUSH_PAIR: u32 = 8;

/// Smushing rule 5: big X.
pub const SMUSH_BIGX: u32 = 16;

/// Smushing rule 6: hardblanks.
pub const SMUSH_HARDBLANK: u32 = 32;

/// The number of smushing rules the rule editor lists.
pub const SMUSH_RULE_COUNT: usize = 6;

/// The number of header fields the header editor lists.
pub const HEADER_FIELD_COUNT: usize = 7;

/// The number of transforms the transform editor lists.
pub const TRANSFORM_COUNT: usize = 6;

/// The layout bit of the smushing rule at `i` in the rule editor.
pub open spec fn smush_rule_bit(i: int) -> u32 {
    if i == 0 {
        SMUSH_EQUAL_CHARS
    } else if i == 1 {
        SMUSH_UNDERSCORE
    } else if i == 2 {
        SMUSH_HIERARCHY
    } else if i == 3 {
        SMUSH_PAIR
    } else if i == 4 {
        SMUSH_BIGX
    } else {
        SMUSH_HARDBLANK
    }
}

fn smush_bit(i: usize) -> (b: u32)
    requires
        i < SMUSH_RULE_COUNT,
    ensures
        b == smush_rule_bit(i as int),
{
    if i == 0 {
        SMUSH_EQUAL_CHARS
    } else if i == 1 {
        SMUSH_UNDERSCORE
    } else if i == 2 {
        SMUSH_HIERARCHY
    } else if i == 3 {
        SMUSH_PAIR
    } else if i == 4 {
        SMUSH_BIGX
    } else {
        SMUSH_HARDBLANK
    }
}

/// How a glyph is mirrored.
#[derive(Debug, Clone, Copy, PartialEq, Eq, Structural)]
pub enum MirrorMode {
    Horizontal,
    Vertical,
    Both,
}

impl MirrorMode {
    pub open spec fn spec_label(self) -> Seq<char> {
        match self {
            MirrorMode::Horizontal => "Horizontal"@,
            MirrorMode::Vertical => "Vertical"@,
            MirrorMode::Both => "Both"@,
        }
    }

    pub open spec fn spec_next(self) -> MirrorMode {
        match self {
            MirrorMode::Horizontal => MirrorMode::Vertical,
            MirrorMode::Vertical => MirrorMode::Both,
            MirrorMode::Both => MirrorMode::Horizontal,
        }
    }

    pub open spec fn spec_prev(self) -> MirrorMode {
        match self {
            MirrorMode::Horizontal => MirrorMode::Both,
            MirrorMode::Vertical => MirrorMode::Horizontal,
            MirrorMode::Both => MirrorMode::Vertical,
        }
    }

    /// The name shown for the mode.
    pub fn label(&self) -> (r: &'static str)
        ensures
            r@ == self.spec_label(),
    {
        match self {
            MirrorMode::Horizontal => "Horizontal",
            MirrorMode::Vertical => "Vertical",
            MirrorMode::Both => "Both",
        }
    }

    /// The following mode, wrapping around.
    pub fn next(&self) -> (m: MirrorMode)
        ensures
            m == self.spec_next(),
    {
        match self {
            MirrorMode::Horizontal => MirrorMode::Vertical,
            MirrorMode::Vertical => MirrorMode::Both,
            MirrorMode::Both => MirrorMode::Horizontal,
        }
    }

    /// The preceding mode, wrapping around.
    pub fn prev(&self) -> (m: MirrorMode)
        ensures
            m == self.spec_prev(),
    {
        match self {
            MirrorMode::Horizontal => MirrorMode::Both,
            MirrorMode::Vertical => MirrorMode::Horizontal,
            MirrorMode::Both => MirrorMode::Vertical,
        }
    }
}

/// The screen the font editor shows.
#[derive(Debug, Clone, Copy, PartialEq, Eq, Structural)]
pub enum FontEditorView {
    Overview,
    CharEditor(u32),
    HeaderEditor,
    SmushRuleEditor,
    TransformEditor,
}

/// What the code prompt of the overview is asking for.
#[derive(Debug, Clone, Copy, PartialEq, Eq, Structural)]
pub enum CodeInputMode {
    Add,
    CopySource,
    CopyDest,
    DeleteConfirm,
}

/// The font editor: the loaded font, the screen shown and the state of each
/// screen's prompts.
pub struct FontEditor {
    pub font: Option<FIGfont>,
    pub view: FontEditorView,
    pub search_query: String,
    pub search_active: bool,
    pub grid_scroll: u16,
    pub selected_index: usize,
    pub all_codes: Vec<u32>,
    pub undo_stack: Vec<Vec<String>>,
    pub redo_stack: Vec<Vec<String>>,
    pub selected_field: usize,
    pub editing_field: bool,
    pub edit_buffer: String,
    pub error_message: String,
    pub smush_selected: usize,
    pub code_input_active: bool,
    pub code_input_buffer: String,
    pub code_input_mode: CodeInputMode,
    pub copy_source_code: u32,
    pub selected_transform: usize,
    pub input_buffer: String,
    pub input_active: bool,
    pub sub_step: u8,
    pub transform_submode: Option<MirrorMode>,
    pub transform_font_name: String,
    pub font_storage_name: String,
    pub current_path: Option<String>,
    pub glyph_request: Option<(String, u32)>,
}

/// The prompts, lists and stacks of the two editors agree: only the
/// font, its code list, the screen, the selection and the message may
/// differ.
pub open spec fn ui_same(a: FontEditor, b: FontEditor) -> bool {
    &&& search_same(a, b)
    &&& stacks_same(a, b)
    &&& header_prompt_same(a, b)
    &&& a.smush_selected == b.smush_selected
    &&& code_prompt_same(a, b)
    &&& transform_prompt_same(a, b)
    &&& a.current_path == b.current_path
}

/// The search of the overview agrees.
pub open spec fn search_same(a: FontEditor, b: FontEditor) -> bool {
    &&& a.search_query == b.search_query
    &&& a.search_active == b.search_active
    &&& a.grid_scroll == b.grid_scroll
}

/// The undo and redo stacks agree.
pub open spec fn stacks_same(a: FontEditor, b: FontEditor) -> bool {
    &&& a.undo_stack == b.undo_stack
    &&& a.redo_stack == b.redo_stack
}

/// The header editor's field, mode and text agree.
pub open spec fn header_prompt_same(a: FontEditor, b: FontEditor) -> bool {
    &&& a.selected_field == b.selected_field
    &&& a.editing_field == b.editing_field
    &&& a.edit_buffer == b.edit_buffer
}

/// The code prompt of the overview agrees.
pub open spec fn code_prompt_same(a: FontEditor, b: FontEditor) -> bool {
    &&& a.code_input_active == b.code_input_active
    &&& a.code_input_buffer == b.code_input_buffer
    &&& a.code_input_mode == b.code_input_mode
    &&& a.copy_source_code == b.copy_source_code
}

/// The transform editor's selection, prompt and requests agree.
pub open spec fn transform_prompt_same(a: FontEditor, b: FontEditor) -> bool {
    &&& a.selected_transform == b.selected_transform
    &&& a.input_buffer == b.input_buffer
    &&& a.input_active == b.input_active
    &&& a.sub_step == b.sub_step
    &&& a.transform_submode == b.transform_submode
    &&& a.transform_font_name == b.transform_font_name
    &&& a.font_storage_name == b.font_storage_name
    &&& a.glyph_request == b.glyph_request
}

/// A code point that is a Unicode scalar value.
pub open spec fn valid_code(code: u32) -> bool {
    code <= 0x10FFFF && !(0xD800 <= code <= 0xDFFF)
}

/// The position of `code` in `codes`, or 0 when it is absent.
pub open spec fn position_or_zero(codes: Seq<u32>, code: u32) -> int {
    if codes.contains(code) {
        choose|i: int| 0 <= i < codes.len() && codes[i] == code
    } else {
        0
    }
}

/// The glyph of a new character: `charheight` rows of `maxlength` spaces.
pub open spec fn fresh_glyph(f: FIGfont) -> Seq<Seq<char>> {
    blank_rows(f.charheight as nat, f.maxlength as nat)
}

/// `ed` lists exactly the codes of its font, in increasing order (no codes
/// without a font).
pub open spec fn codes_in_sync(ed: &FontEditor) -> bool {
    match ed.font {
        Some(f) => sorted_codes(ed.all_codes@, f.chars@.dom()),
        None => ed.all_codes@.len() == 0,
    }
}

/// The glyphs of `f` after `g` was stored at `code`.
pub open spec fn glyphs_with(f: FIGfont, code: u32, g: Seq<Seq<char>>) -> Map<u32, Seq<Seq<char>>> {
    glyphs(f.chars@).insert(code, g)
}

/// The index of `x` in the increasing sequence `s`, which holds it.
fn index_of(s: &Vec<u32>, x: u32) -> (i: usize)
    requires
        strictly_increasing(s@),
    ensures
        s@.contains(x) ==> i < s@.len() && s@[i as int] == x,
        !s@.contains(x) ==> i == 0,
        i == position_or_zero(s@, x),
{
    let mut k: usize = 0;
    while k < s.len()
        invariant
            k <= s@.len(),
            strictly_increasing(s@),
            forall|j: int| 0 <= j < k ==> s@[j] != x,
        decreases s@.len() - k,
    {
        if s[k] == x {
            proof {
                assert(s@.contains(x));
                let c = choose|i: int| 0 <= i < s@.len() && s@[i] == x;
                if c < k {
                    assert(s@[c] != x);
                } else if c > k {
                    assert(s@[k as int] < s@[c]);
                }
                assert(c == k);
            }
            return k;
        }
        k = k + 1;
    }
    assert(!s@.contains(x));
    0
}

impl FontEditor {
    /// An editor with no font, on the overview.
    pub fn new() -> (ed: FontEditor)
        ensures
            ed.font.is_none(),
            ed.view == FontEditorView::Overview,
            ed.search_query@.len() == 0,
            !ed.search_active,
            ed.grid_scroll == 0,
            ed.selected_index == 0,
            ed.all_codes@.len() == 0,
            ed.undo_stack@.len() == 0,
            ed.redo_stack@.len() == 0,
            ed.selected_field == 0,
            !ed.editing_field,
            ed.edit_buffer@.len() == 0,
            ed.error_message@.len() == 0,
            ed.smush_selected == 0,
            !ed.code_input_active,
            ed.code_input_buffer@.len() == 0,
            ed.code_input_mode == CodeInputMode::Add,
            ed.copy_source_code == 0,
            ed.selected_transform == 0,
            ed.input_buffer@.len() == 0,
            !ed.input_active,
            ed.sub_step == 0,
            ed.transform_submode.is_none(),
            ed.transform_font_name@.len() == 0,
            ed.font_storage_name@.len() == 0,
            ed.current_path.is_none(),
            ed.glyph_request.is_none(),
            codes_in_sync(&ed),
    {
        FontEditor {
            font: None,
            view: FontEditorView::Overview,
            search_query: String::new(),
            search_active: false,
            grid_scroll: 0,
            selected_index: 0,
            all_codes: Vec::new(),
            undo_stack: Vec::new(),
            redo_stack: Vec::new(),
            selected_field: 0,
            editing_field: false,
            edit_buffer: String::new(),
            error_message: String::new(),
            smush_selected: 0,
            code_input_active: false,
            code_input_buffer: String::new(),
            code_input_mode: CodeInputMode::Add,
            copy_source_code: 0,
            selected_transform: 0,
            input_buffer: String::new(),
            input_active: false,
            sub_step: 0,
            transform_submode: None,
            transform_font_name: String::new(),
            font_storage_name: String::new(),
            current_path: None,
            glyph_request: None,
        }
    }

    /// Start editing `font`: list its codes and reset every screen.
    pub fn load_font(&mut self, font: FIGfont)
        ensures
            final(self).font == Some(font),
            codes_in_sync(final(self)),
            !final(self).search_active,
            final(self).grid_scroll == 0,
            final(self).selected_index == 0,
            final(self).view == FontEditorView::Overview,
            final(self).undo_stack@.len() == 0,
            final(self).redo_stack@.len() == 0,
            final(self).smush_selected == 0,
            !final(self).code_input_active,
            final(self).code_input_buffer@.len() == 0,
            final(self).selected_transform == 0,
            final(self).input_buffer@.len() == 0,
            !final(self).input_active,
            final(self).sub_step == 0,
            final(self).transform_submode.is_none(),
            final(self).transform_font_name@.len() == 0,
            final(self).font_storage_name@.len() == 0,
            final(self).search_query == old(self).search_query,
            final(self).selected_field == old(self).selected_field,
            final(self).editing_field == old(self).editing_field,
            final(self).edit_buffer == old(self).edit_buffer,
            final(self).error_message == old(self).error_message,
            final(self).code_input_mode == old(self).code_input_mode,
            final(self).copy_source_code == old(self).copy_source_code,
            final(self).current_path == old(self).current_path,
            final(self).glyph_request == old(self).glyph_request,
    {
        let codes = sorted_codes_of(&font.chars);
        self.all_codes = codes;
        self.font = Some(font);
        self.search_active = false;
        self.grid_scroll = 0;
        self.selected_index = 0;
        self.view = FontEditorView::Overview;
        self.undo_stack = Vec::new();
        self.redo_stack = Vec::new();
        self.smush_selected = 0;
        self.code_input_active = false;
        self.code_input_buffer = String::new();
        self.selected_transform = 0;
        self.input_buffer = String::new();
        self.input_active = false;
        self.sub_step = 0;
        self.transform_submode = None;
        self.transform_font_name = String::new();
        self.font_storage_name = String::new();
    }

    /// Open the header editor on its first field.
    pub fn enter_header_editor(&mut self)
        ensures
            enter_header_post(*old(self), *final(self)),
    {
        self.view = FontEditorView::HeaderEditor;
        self.selected_field = 0;
        self.editing_field = false;
        self.edit_buffer = String::new();
        self.error_message = String::new();
    }

    /// Open the smushing-rule editor on its first rule.
    pub fn enter_smush_editor(&mut self)
        ensures
            enter_smush_post(*old(self), *final(self)),
    {
        self.view = FontEditorView::SmushRuleEditor;
        self.smush_selected = 0;
    }

    /// Open the transform editor on its first transform, with no prompt.
    pub fn enter_transform_editor(&mut self)
        ensures
            enter_transform_post(*old(self), *final(self)),
    {
        self.view = FontEditorView::TransformEditor;
        self.selected_transform = 0;
        self.input_active = false;
        self.input_buffer = String::new();
        self.sub_step = 0;
        self.transform_submode = None;
        self.transform_font_name = String::new();
        self.error_message = String::new();
    }

    /// Whether `code` is a Unicode scalar value.
    pub fn is_valid_code(code: u32) -> (r: bool)
        ensures
            r == valid_code(code),
    {
        code <= 0x10FFFF && !(0xD800 <= code && code <= 0xDFFF)
    }

    /// List the codes of the font again, in increasing order.
    pub fn rebuild_all_codes(&mut self)
        ensures
            codes_in_sync(final(self)),
            final(self).font == old(self).font,
            final(self).view == old(self).view,
            final(self).selected_index == old(self).selected_index,
            final(self).error_message == old(self).error_message,
            ui_same(*old(self), *final(self)),
    {
        match &self.font {
            Some(font) => {
                let codes = sorted_codes_of(&font.chars);
                self.all_codes = codes;
            },
            None => {
                self.all_codes = Vec::new();
            },
        }
    }

    /// Give the font a glyph for code 0 (the glyph shown for missing
    /// characters) when it has none: `charheight` rows of `maxlength`
    /// spaces.
    pub fn ensure_missing_char(&mut self)
        ensures
            final(self).font.is_some() == old(self).font.is_some(),
            old(self).font matches Some(f) ==> {
                let g = final(self).font.unwrap();
                &&& glyphs(g.chars@) == (if f.chars@.contains_key(0) {
                    glyphs(f.chars@)
                } else {
                    glyphs_with(f, 0, fresh_glyph(f))
                })
                &&& g.chars@.dom() == f.chars@.dom().insert(0)
                &&& same_header(g, f)
            },
            final(self).all_codes == old(self).all_codes,
            final(self).view == old(self).view,
            final(self).selected_index == old(self).selected_index,
            final(self).error_message == old(self).error_message,
            ui_same(*old(self), *final(self)),
    {
        match &mut self.font {
            Some(font) => {
                if !font.chars.contains_key(&0) {
                    let g = FIGcharacter::blank(font.charheight, font.maxlength);
                    font.chars.insert(0, g);
                    proof {
                        assert(glyphs(font.chars@) =~= glyphs_with(old(self).font.unwrap(), 0, fresh_glyph(old(self).font.unwrap())));
                    }
                } else {
                    proof {
                        assert(old(self).font.unwrap().chars@.dom().insert(0) =~= old(self).font.unwrap().chars@.dom());
                    }
                }
            },
            None => {},
        }
    }
}


/// All header values of `a` and `b` agree.
pub open spec fn same_header(a: FIGfont, b: FIGfont) -> bool {
    &&& a.hardblank == b.hardblank
    &&& a.charheight == b.charheight
    &&& a.baseline == b.baseline
    &&& a.maxlength == b.maxlength
    &&& a.old_layout == b.old_layout
    &&& a.comment_lines == b.comment_lines
    &&& a.print_direction == b.print_direction
    &&& a.full_layout == b.full_layout
    &&& a.codetag_count == b.codetag_count
    &&& a.comment == b.comment
}

/// `g` is `f` with glyph `code` set to `rows`.
pub open spec fn stored(g: FIGfont, f: FIGfont, code: u32, rows: Seq<Seq<char>>) -> bool {
    &&& same_header(g, f)
    &&& g.chars@.dom() == f.chars@.dom().insert(code)
    &&& glyphs(g.chars@) == glyphs_with(f, code, rows)
}

/// `prefix`, the code in upper-case hexadecimal, then `suffix`.
fn code_message(prefix: &str, code: u32, suffix: &str) -> (m: String)
    ensures
        m@ == prefix@ + hex_upper(code as nat) + suffix@,
{
    let mut m = String::new();
    push_str(&mut m, prefix);
    push_hex_upper(&mut m, code);
    push_str(&mut m, suffix);
    m
}

impl FontEditor {
    /// Add an empty glyph (`charheight` rows of `maxlength` spaces) for
    /// `code` and select it on the overview. An invalid code point or one
    /// the font already has is refused with a message; without a font
    /// nothing happens.
    pub fn add_char(&mut self, code: u32)
        ensures
            add_char_post(*old(self), *final(self), code),
            ui_same(*old(self), *final(self)),
    {
        if !FontEditor::is_valid_code(code) {
            self.error_message = code_message("Invalid code point: U+", code, "");
            proof {
                reveal_strlit("");
                assert(self.error_message@ =~= "Invalid code point: U+"@ + hex_upper(code as nat));
            }
            return;
        }
        match &mut self.font {
            None => {
                return;
            },
            Some(font) => {
                if font.chars.contains_key(&code) {
                    self.error_message = code_message("Code U+", code, " already exists");
                    return;
                }
                let g = FIGcharacter::blank(font.charheight, font.maxlength);
                font.chars.insert(code, g);
                proof {
                    let f = old(self).font.unwrap();
                    assert(glyphs(font.chars@) =~= glyphs_with(f, code, fresh_glyph(f)));
                }
            },
        }
        self.rebuild_all_codes();
        self.view = FontEditorView::Overview;
        proof {
            let g = self.font.unwrap();
            assert(g.chars@.dom().contains(code));
            assert(self.all_codes@.to_set().contains(code));
        }
        self.selected_index = index_of(&self.all_codes, code);
        self.error_message = String::new();
    }

    /// Remove the glyph of `code`, make sure the font keeps a glyph for code
    /// 0, and return to the overview with the selection kept inside the
    /// list. A code the font lacks is refused with a message; without a font
    /// nothing happens.
    pub fn delete_char(&mut self, code: u32)
        ensures
            delete_char_post(*old(self), *final(self), code),
            ui_same(*old(self), *final(self)),
    {
        match &mut self.font {
            None => {
                return;
            },
            Some(font) => {
                if !font.chars.contains_key(&code) {
                    self.error_message = code_message("Code U+", code, " not found");
                    return;
                }
                font.chars.remove(&code);
            },
        }
        let ghost mid = self.font.unwrap();
        proof {
            let f = old(self).font.unwrap();
            assert(glyphs(mid.chars@) =~= glyphs(f.chars@).remove(code));
        }
        self.ensure_missing_char();
        proof {
            let f = old(self).font.unwrap();
            let g = self.font.unwrap();
            if code == 0 {
                assert(!mid.chars@.contains_key(0));
                assert(glyphs(g.chars@) =~= glyphs(f.chars@).remove(code).insert(0, fresh_glyph(f)));
            } else {
                assert(mid.chars@.contains_key(0) == f.chars@.contains_key(0));
                if !f.chars@.contains_key(0) {
                    assert(glyphs(g.chars@) =~= glyphs(f.chars@).remove(code).insert(0, fresh_glyph(f)));
                } else {
                    assert(glyphs(g.chars@) =~= glyphs(f.chars@).remove(code));
                }
            }
        }
        self.rebuild_all_codes();
        self.view = FontEditorView::Overview;
        let n = self.all_codes.len();
        if self.selected_index >= n {
            self.selected_index = if n == 0 {
                0
            } else {
                n - 1
            };
        }
        self.error_message = String::new();
    }
}


/// `n` spaces.
pub open spec fn spaces(n: nat) -> Seq<char> {
    Seq::new(n, |j: int| ' ')
}

/// `s` in reverse order.
pub open spec fn reversed<A>(s: Seq<A>) -> Seq<A> {
    Seq::new(s.len(), |i: int| s[s.len() - 1 - i])
}

/// Each character of `s` written twice.
pub open spec fn doubled(s: Seq<char>) -> Seq<char> {
    Seq::new(2 * s.len(), |k: int| s[k / 2])
}

/// Row `i` shifted right by `i` spaces.
pub open spec fn italic_rows(rows: Seq<Seq<char>>) -> Seq<Seq<char>> {
    Seq::new(rows.len(), |i: int| spaces(i as nat) + rows[i])
}

/// Every character of every row doubled.
pub open spec fn bold_rows(rows: Seq<Seq<char>>) -> Seq<Seq<char>> {
    Seq::new(rows.len(), |i: int| doubled(rows[i]))
}

/// The rows mirrored left to right, top to bottom, or both.
pub open spec fn mirrored_rows(rows: Seq<Seq<char>>, mode: MirrorMode) -> Seq<Seq<char>> {
    match mode {
        MirrorMode::Horizontal => Seq::new(rows.len(), |i: int| reversed(rows[i])),
        MirrorMode::Vertical => reversed(rows),
        MirrorMode::Both => Seq::new(rows.len(), |i: int| reversed(reversed(rows)[i])),
    }
}

/// The rows of a glyph when the font height goes from `old_h` to `new_h`:
/// growing pads with rows of `w` spaces up to `new_h` rows, shrinking cuts
/// the rows beyond `new_h`.
pub open spec fn resized_rows(rows: Seq<Seq<char>>, new_h: nat, old_h: nat, w: nat) -> Seq<Seq<char>> {
    if new_h > old_h {
        if rows.len() < new_h {
            rows + blank_rows((new_h - rows.len()) as nat, w)
        } else {
            rows
        }
    } else if rows.len() > new_h {
        rows.take(new_h as int)
    } else {
        rows
    }
}

/// A change made to every glyph of a font.
#[derive(Clone, Copy)]
pub enum GlyphOp {
    Italicize,
    Bold,
    Mirror(MirrorMode),
    Resize(u32, u32, u32),
}

/// What `op` makes of the rows of a glyph.
pub open spec fn applied(op: GlyphOp, rows: Seq<Seq<char>>) -> Seq<Seq<char>> {
    match op {
        GlyphOp::Italicize => italic_rows(rows),
        GlyphOp::Bold => bold_rows(rows),
        GlyphOp::Mirror(mode) => mirrored_rows(rows, mode),
        GlyphOp::Resize(new_h, old_h, w) => resized_rows(rows, new_h as nat, old_h as nat, w as nat),
    }
}

fn doubled_string(s: &str) -> (r: String)
    ensures
        r@ == doubled(s@),
{
    let cs = crate::text::chars_of(s);
    let mut r = String::new();
    let mut k: usize = 0;
    while k < cs.len()
        invariant
            cs@ == s@,
            k <= cs@.len(),
            r@ == doubled(cs@.take(k as int)),
        decreases cs@.len() - k,
    {
        push_char(&mut r, cs[k]);
        push_char(&mut r, cs[k]);
        k = k + 1;
        assert(r@ =~= doubled(cs@.take(k as int)));
    }
    assert(cs@.take(k as int) =~= cs@);
    r
}

fn reversed_string(s: &str) -> (r: String)
    ensures
        r@ == reversed(s@),
{
    let cs = crate::text::chars_of(s);
    let mut r = String::new();
    let mut k: usize = cs.len();
    while k > 0
        invariant
            cs@ == s@,
            k <= cs@.len(),
            r@ == reversed(cs@).take(cs@.len() - k),
        decreases k,
    {
        k = k - 1;
        push_char(&mut r, cs[k]);
        assert(r@ =~= reversed(cs@).take(cs@.len() - k));
    }
    assert(reversed(cs@).take(cs@.len() as int) =~= reversed(cs@));
    r
}

fn italic_string(s: &str, i: usize) -> (r: String)
    ensures
        r@ == spaces(i as nat) + s@,
{
    let mut r = crate::text::repeat_char(' ', i);
    push_str(&mut r, s);
    assert(r@ =~= spaces(i as nat) + s@);
    r
}

/// The rows of `c` changed by `op`.
pub fn apply_glyph(op: GlyphOp, c: &FIGcharacter) -> (r: FIGcharacter)
    ensures
        r@ == applied(op, c@),
{
    let rows = c.rows();
    let n = rows.len();
    let mut out: Vec<String> = Vec::new();
    match op {
        GlyphOp::Mirror(MirrorMode::Vertical) => {
            let mut k: usize = n;
            while k > 0
                invariant
                    strings_view(rows@) == c@,
                    n == rows@.len(),
                    k <= n,
                    out@.len() == n - k,
                    strings_view(out@) == reversed(c@).take(n - k),
                decreases k,
            {
                k = k - 1;
                let s = copy_string(rows[k].as_str());
                let ghost prev = out@;
                out.push(s);
                assert forall|j: int| 0 <= j < n - k implies #[trigger] strings_view(out@)[j] == reversed(c@).take(n - k)[j] by {
                    if j < n - k - 1 {
                        assert(out@[j] == prev[j]);
                        assert(strings_view(prev)[j] == reversed(c@).take(n - k - 1)[j]);
                    }
                }
                assert(strings_view(out@) =~= reversed(c@).take(n - k));
            }
            assert(reversed(c@).take(n as int) =~= reversed(c@));
        },
        GlyphOp::Resize(new_h, old_h, w) => {
            let mut k: usize = 0;
            while k < n
                invariant
                    strings_view(rows@) == c@,
                    n == rows@.len(),
                    k <= n,
                    out@.len() == k,
                    strings_view(out@) == c@.take(k as int),
                decreases n - k,
            {
                let s = copy_string(rows[k].as_str());
                let ghost prev = out@;
                out.push(s);
                k = k + 1;
                assert forall|j: int| 0 <= j < k implies #[trigger] strings_view(out@)[j] == c@.take(k as int)[j] by {
                    if j < k - 1 {
                        assert(out@[j] == prev[j]);
                        assert(strings_view(prev)[j] == c@.take(k - 1)[j]);
                    }
                }
                assert(strings_view(out@) =~= c@.take(k as int));
            }
            assert(c@.take(n as int) =~= c@);
            if new_h > old_h {
                while out.len() < new_h as usize
                    invariant
                        n == c@.len(),
                        n <= out@.len() <= (if n < new_h { new_h as int } else { n as int }),
                        strings_view(out@) == c@ + blank_rows((out@.len() - n) as nat, w as nat),
                    decreases new_h - out@.len(),
                {
                    let s = crate::text::repeat_char(' ', w as usize);
                    let ghost prev = out@;
                    out.push(s);
                    assert forall|j: int| 0 <= j < out@.len() implies #[trigger] strings_view(out@)[j] == (c@ + blank_rows((out@.len() - n) as nat, w as nat))[j] by {
                        if j < out@.len() - 1 {
                            assert(out@[j] == prev[j]);
                            assert(strings_view(prev)[j] == (c@ + blank_rows((prev.len() - n) as nat, w as nat))[j]);
                        } else {
                            assert(s@ =~= blank_rows((out@.len() - n) as nat, w as nat)[j - n]);
                        }
                    }
                    assert(strings_view(out@) =~= c@ + blank_rows((out@.len() - n) as nat, w as nat));
                }
                proof {
                    if n >= new_h {
                        assert(blank_rows(0, w as nat) =~= Seq::<Seq<char>>::empty());
                        assert(c@ + blank_rows(0, w as nat) =~= c@);
                    }
                }
            } else {
                out.truncate(new_h as usize);
                assert(strings_view(out@) =~= resized_rows(c@, new_h as nat, old_h as nat, w as nat));
            }
        },
        _ => {
            let mut k: usize = 0;
            while k < n
                invariant
                    strings_view(rows@) == c@,
                    n == rows@.len(),
                    k <= n,
                    out@.len() == k,
                    !(op matches GlyphOp::Mirror(MirrorMode::Vertical)),
                    !(op is Resize),
                    strings_view(out@) == applied(op, c@).take(k as int),
                decreases n - k,
            {
                let s = match op {
                    GlyphOp::Italicize => italic_string(rows[k].as_str(), k),
                    GlyphOp::Bold => doubled_string(rows[k].as_str()),
                    GlyphOp::Mirror(MirrorMode::Horizontal) => reversed_string(rows[k].as_str()),
                    _ => reversed_string(rows[n - 1 - k].as_str()),
                };
                proof {
                    assert(rows@[k as int]@ == c@[k as int]);
                    assert(rows@[n - 1 - k]@ == c@[n - 1 - k]);
                }
                let ghost prev = out@;
                out.push(s);
                k = k + 1;
                assert forall|j: int| 0 <= j < k implies #[trigger] strings_view(out@)[j] == applied(op, c@).take(k as int)[j] by {
                    if j < k - 1 {
                        assert(out@[j] == prev[j]);
                        assert(strings_view(prev)[j] == applied(op, c@).take(k - 1)[j]);
                    }
                }
                assert(strings_view(out@) =~= applied(op, c@).take(k as int));
            }
            assert(applied(op, c@).take(n as int) =~= applied(op, c@));
        },
    }
    FIGcharacter::new(out)
}


/// Apply `op` to every glyph of `chars`.
pub fn apply_to_all(chars: &mut HashMap<u32, FIGcharacter>, op: GlyphOp)
    ensures
        final(chars)@.dom() == old(chars)@.dom(),
        forall|k: u32| #[trigger] final(chars)@.contains_key(k) ==> final(chars)@[k]@ == applied(op, old(chars)@[k]@),
{
    let codes = crate::font::collect_codes(chars);
    let mut i: usize = 0;
    while i < codes.len()
        invariant
            i <= codes@.len(),
            codes@.no_duplicates(),
            codes@.to_set() == old(chars)@.dom(),
            chars@.dom() == old(chars)@.dom(),
            forall|j: int| 0 <= j < i ==> #[trigger] chars@[codes@[j]]@ == applied(op, old(chars)@[codes@[j]]@),
            forall|k: u32| chars@.contains_key(k) && !codes@.take(i as int).contains(k) ==> #[trigger] chars@[k] == old(chars)@[k],
        decreases codes@.len() - i,
    {
        let k = codes[i];
        proof {
            assert(codes@.to_set().contains(k));
            assert(!codes@.take(i as int).contains(k)) by {
                if codes@.take(i as int).contains(k) {
                    let j = choose|j: int| 0 <= j < i && codes@.take(i as int)[j] == k;
                    assert(codes@[j] == codes@[i as int]);
                }
            }
        }
        let newg = match chars.get(&k) {
            Some(c) => apply_glyph(op, c),
            None => {
                proof { assert(false); }
                FIGcharacter::new(Vec::new())
            },
        };
        let ghost before = chars@;
        chars.insert(k, newg);
        proof {
            assert(chars@.dom() =~= old(chars)@.dom());
            assert forall|j: int| 0 <= j < i + 1 implies #[trigger] chars@[codes@[j]]@ == applied(op, old(chars)@[codes@[j]]@) by {
                if j < i {
                    assert(codes@[j] != k);
                }
            }
            assert forall|x: u32| chars@.contains_key(x) && !codes@.take(i + 1).contains(x) implies #[trigger] chars@[x] == old(chars)@[x] by {
                assert(x != k) by {
                    assert(codes@.take(i + 1)[i as int] == k);
                }
                if codes@.take(i as int).contains(x) {
                    let j = choose|j: int| 0 <= j < i && codes@.take(i as int)[j] == x;
                    assert(codes@.take(i + 1)[j] == x);
                }
            }
        }
        i = i + 1;
    }
    proof {
        assert forall|k: u32| #[trigger] chars@.contains_key(k) implies chars@[k]@ == applied(op, old(chars)@[k]@) by {
            assert(codes@.to_set().contains(k));
            let j = choose|j: int| 0 <= j < codes@.len() && codes@[j] == k;
        }
    }
}

/// `v` is the widest glyph width of `m` (as 32 bits), or 1 for no glyphs.
pub open spec fn widest_is(m: Map<u32, FIGcharacter>, v: u32) -> bool {
    if m.dom() == Set::<u32>::empty() {
        v == 1
    } else {
        &&& exists|k: u32| m.contains_key(k) && v == glyph_width(#[trigger] m[k]@) as u32
        &&& forall|k: u32| m.contains_key(k) ==> glyph_width(#[trigger] m[k]@) as u32 <= v
    }
}

/// The widest glyph of `chars`, 1 when there are none.
pub fn widest(chars: &HashMap<u32, FIGcharacter>) -> (v: u32)
    ensures
        widest_is(chars@, v),
{
    let codes = crate::font::collect_codes(chars);
    if codes.len() == 0 {
        assert(chars@.dom() =~= Set::<u32>::empty()) by {
            assert forall|k: u32| !chars@.contains_key(k) by {
                if chars@.contains_key(k) {
                    assert(codes@.to_set().contains(k));
                }
            }
        }
        return 1;
    }
    let mut best: u32 = 0;
    let mut i: usize = 0;
    while i < codes.len()
        invariant
            0 < codes@.len(),
            i <= codes@.len(),
            codes@.to_set() == chars@.dom(),
            i > 0 ==> exists|j: int| 0 <= j < i && best == glyph_width(#[trigger] chars@[codes@[j]]@) as u32,
            forall|j: int| 0 <= j < i ==> glyph_width(#[trigger] chars@[codes@[j]]@) as u32 <= best,
        decreases codes@.len() - i,
    {
        let k = codes[i];
        proof {
            assert(codes@.to_set().contains(k));
        }
        let w = match chars.get(&k) {
            Some(c) => c.width() as u32,
            None => {
                proof { assert(false); }
                0
            },
        };
        if i == 0 || w > best {
            best = w;
        }
        i = i + 1;
    }
    proof {
        assert(chars@.contains_key(codes@[0]));
        assert(chars@.dom() != Set::<u32>::empty());
        let j = choose|j: int| 0 <= j < codes@.len() && best == glyph_width(#[trigger] chars@[codes@[j]]@) as u32;
        assert(chars@.contains_key(codes@[j]));
        assert forall|k: u32| chars@.contains_key(k) implies glyph_width(#[trigger] chars@[k]@) as u32 <= best by {
            assert(codes@.to_set().contains(k));
            let j = choose|j: int| 0 <= j < codes@.len() && codes@[j] == k;
        }
    }
    best
}

/// `g` is `f` with every glyph changed by `op` and the widest glyph as the
/// new maximum length.
pub open spec fn transformed_font(g: FIGfont, f: FIGfont, op: GlyphOp) -> bool {
    &&& g.chars@.dom() == f.chars@.dom()
    &&& forall|k: u32| #[trigger] g.chars@.contains_key(k) ==> g.chars@[k]@ == applied(op, f.chars@[k]@)
    &&& widest_is(g.chars@, g.maxlength)
}

impl FontEditor {
    /// Copy the glyph of `src` (an empty glyph when the font lacks it) to
    /// `dst`, replacing what was there, and select `dst` on the overview.
    /// An invalid destination is refused with a message; without a font
    /// nothing happens.
    pub fn copy_char(&mut self, src: u32, dst: u32)
        ensures
            copy_char_post(*old(self), *final(self), src, dst),
            ui_same(*old(self), *final(self)),
    {
        if !FontEditor::is_valid_code(dst) {
            self.error_message = code_message("Invalid destination code point: U+", dst, "");
            proof {
                reveal_strlit("");
                assert(self.error_message@ =~= "Invalid destination code point: U+"@ + hex_upper(dst as nat));
            }
            return;
        }
        match &mut self.font {
            None => {
                return;
            },
            Some(font) => {
                let g = match font.chars.get(&src) {
                    Some(c) => c.duplicate(),
                    None => FIGcharacter::blank(font.charheight, font.maxlength),
                };
                font.chars.insert(dst, g);
                proof {
                    let f = old(self).font.unwrap();
                    assert(glyphs(font.chars@) =~= glyphs_with(f, dst, if f.chars@.contains_key(src) {
                        f.chars@[src]@
                    } else {
                        fresh_glyph(f)
                    }));
                }
            },
        }
        self.rebuild_all_codes();
        self.view = FontEditorView::Overview;
        proof {
            let g = self.font.unwrap();
            assert(g.chars@.dom().contains(dst));
            assert(self.all_codes@.to_set().contains(dst));
        }
        self.selected_index = index_of(&self.all_codes, dst);
        self.error_message = String::new();
    }

    /// Change the height of every glyph to `new_height`: taller glyphs get
    /// rows of `maxlength` spaces at the bottom, shorter ones lose their
    /// bottom rows; the baseline is kept within the height and the maximum
    /// length is taken again from the widest glyph. A zero height is
    /// refused with a message; the current height, or no font, changes
    /// nothing.
    pub fn transform_resize(&mut self, new_height: u32)
        ensures
            resize_post(*old(self), *final(self), new_height),
            ui_same(*old(self), *final(self)),
    {
        match &mut self.font {
            None => {},
            Some(font) => {
                if new_height == 0 || new_height == font.charheight {
                    if new_height == 0 {
                        self.error_message = copy_string("Height must be \u{2265} 1");
                    }
                    return;
                }
                let old_height = font.charheight;
                font.charheight = new_height;
                if new_height < font.baseline {
                    font.baseline = new_height;
                }
                apply_to_all(&mut font.chars, GlyphOp::Resize(new_height, old_height, font.maxlength));
                font.maxlength = widest(&font.chars);
            },
        }
    }

    /// Slant every glyph: row `i` moves right by `i` spaces; the maximum
    /// length is taken again from the widest glyph.
    pub fn transform_italicize(&mut self)
        ensures
            italicize_post(*old(self), *final(self)),
            ui_same(*old(self), *final(self)),
    {
        if let Some(font) = &mut self.font {
            apply_to_all(&mut font.chars, GlyphOp::Italicize);
            font.maxlength = widest(&font.chars);
        }
    }

    /// Widen every glyph by writing each character twice; the maximum
    /// length is taken again from the widest glyph.
    pub fn transform_bold(&mut self)
        ensures
            bold_post(*old(self), *final(self)),
            ui_same(*old(self), *final(self)),
    {
        if let Some(font) = &mut self.font {
            apply_to_all(&mut font.chars, GlyphOp::Bold);
            font.maxlength = widest(&font.chars);
        }
    }

    /// Mirror every glyph as `mode` says; the maximum length is taken again
    /// from the widest glyph.
    pub fn transform_mirror(&mut self, mode: MirrorMode)
        ensures
            mirror_post(*old(self), *final(self), mode),
            ui_same(*old(self), *final(self)),
    {
        if let Some(font) = &mut self.font {
            apply_to_all(&mut font.chars, GlyphOp::Mirror(mode));
            font.maxlength = widest(&font.chars);
        }
    }

    /// Store `code` of another font (`loaded`, as read from `font_source`)
    /// in the edited font. A font that could not be read, or one without
    /// `code`, is refused with a message.
    pub fn transform_copy_glyph_from(&mut self, font_source: &str, loaded: Option<&FIGfont>, code: u32)
        ensures
            loaded.is_none() ==> final(self).error_message@ == "Could not load font: "@ + font_source@ && final(self).font == old(self).font && final(self).all_codes == old(self).all_codes,
            loaded.is_some() && !loaded.unwrap().chars@.contains_key(code) ==> final(self).error_message@ == "Code U+"@ + hex_upper(code as nat) + " not found in font '"@ + font_source@ + "'"@ && final(self).font == old(self).font && final(self).all_codes == old(self).all_codes,
            loaded.is_some() && loaded.unwrap().chars@.contains_key(code) && old(self).font.is_none() ==> final(self).font.is_none() && final(self).error_message == old(self).error_message && final(self).all_codes == old(self).all_codes,
            loaded.is_some() && loaded.unwrap().chars@.contains_key(code) && old(self).font.is_some() ==> final(self).font.is_some() && stored(final(self).font.unwrap(), old(self).font.unwrap(), code, loaded.unwrap().chars@[code]@) && codes_in_sync(final(self)) && final(self).error_message == old(self).error_message,
            final(self).view == old(self).view,
            final(self).selected_index == old(self).selected_index,
            ui_same(*old(self), *final(self)),
    {
        let external = match loaded {
            Some(f) => f,
            None => {
                let mut m = String::new();
                push_str(&mut m, "Could not load font: ");
                push_str(&mut m, font_source);
                self.error_message = m;
                return;
            },
        };
        let src = match external.chars.get(&code) {
            Some(c) => c,
            None => {
                let mut m = code_message("Code U+", code, " not found in font '");
                push_str(&mut m, font_source);
                push_str(&mut m, "'");
                self.error_message = m;
                return;
            },
        };
        let g = src.duplicate();
        match &mut self.font {
            None => {
                return;
            },
            Some(font) => {
                font.chars.insert(code, g);
                proof {
                    let f = old(self).font.unwrap();
                    assert(glyphs(font.chars@) =~= glyphs_with(f, code, loaded.unwrap().chars@[code]@));
                }
            },
        }
        self.rebuild_all_codes();
    }

    /// Name the font is stored under.
    pub fn transform_rename(&mut self, new_name: &str)
        ensures
            final(self).font_storage_name@ == new_name@,
            final(self).font == old(self).font,
            final(self).all_codes == old(self).all_codes,
            final(self).error_message == old(self).error_message,
            final(self).view == old(self).view,
            final(self).selected_index == old(self).selected_index,
            search_same(*old(self), *final(self)),
            stacks_same(*old(self), *final(self)),
            header_prompt_same(*old(self), *final(self)),
            final(self).smush_selected == old(self).smush_selected,
            code_prompt_same(*old(self), *final(self)),
            final(self).current_path == old(self).current_path,
            final(self).selected_transform == old(self).selected_transform,
            final(self).input_buffer == old(self).input_buffer,
            final(self).input_active == old(self).input_active,
            final(self).sub_step == old(self).sub_step,
            final(self).transform_submode == old(self).transform_submode,
            final(self).transform_font_name == old(self).transform_font_name,
            final(self).glyph_request == old(self).glyph_request,
    {
        self.font_storage_name = copy_string(new_name);
    }
}


/// Whether `code` matches the lower-cased search text `q`: its decimal
/// digits contain `q`, or it is a character whose lower-case form does.
pub open spec fn code_matches(code: u32, q: Seq<char>) -> bool {
    ||| contains_text(decimal(code as nat), q)
    ||| (valid_code(code) && contains_text(lowercase(seq![code as char]), q))
}

/// The codes of `s` that match `q`, in order.
pub open spec fn matching_codes(s: Seq<u32>, q: Seq<char>) -> Seq<u32>
    decreases s.len(),
{
    if s.len() == 0 {
        Seq::empty()
    } else {
        let rest = matching_codes(s.drop_last(), q);
        if code_matches(s.last(), q) {
            rest.push(s.last())
        } else {
            rest
        }
    }
}

/// The codes the overview lists for `query`: all of them for a blank
/// query, else those matching its trimmed, lower-cased text.
pub open spec fn listed_codes(all: Seq<u32>, query: Seq<char>) -> Seq<u32> {
    if trimmed(query).len() == 0 {
        all
    } else {
        matching_codes(all, lowercase(trimmed(query)))
    }
}

fn code_matches_exec(code: u32, q: &str) -> (r: bool)
    ensures
        r == code_matches(code, q@),
{
    let mut d = String::new();
    push_decimal(&mut d, code as usize);
    assert(d@ =~= decimal(code as nat));
    if contains_str(d.as_str(), q) {
        return true;
    }
    if let Some(c) = crate::text::char_from_u32(code) {
        let mut cs = String::new();
        push_char(&mut cs, c);
        assert(cs@ =~= seq![code as char]);
        let low = to_lowercase(cs.as_str());
        return contains_str(low.as_str(), q);
    }
    false
}


pub(crate) fn push_i32(s: &mut String, v: i32)
    ensures
        final(s)@ == old(s)@ + signed_decimal(v as int),
{
    if v < 0 {
        push_char(s, '-');
        let m: u32 = if v == -2147483647i32 - 1 {
            2147483648u32
        } else {
            (-v) as u32
        };
        push_decimal(s, m as usize);
        assert(final(s)@ =~= old(s)@ + signed_decimal(v as int));
    } else {
        push_decimal(s, v as usize);
    }
}

/// The decimal text of a signed number, as `i32::to_string` writes it.
pub open spec fn signed_decimal(v: int) -> Seq<char> {
    if v < 0 {
        seq!['-'] + decimal((-v) as nat)
    } else {
        decimal(v as nat)
    }
}

/// The text the header editor starts from for field `field` of `f`.
pub open spec fn header_field_text(f: FIGfont, field: usize) -> Seq<char> {
    if field == 0 {
        seq![f.hardblank]
    } else if field == 1 {
        decimal(f.charheight as nat)
    } else if field == 2 {
        decimal(f.baseline as nat)
    } else if field == 3 {
        decimal(f.maxlength as nat)
    } else if field == 4 {
        signed_decimal(f.full_layout as int)
    } else if field == 5 {
        signed_decimal(f.print_direction as int)
    } else if field == 6 {
        decimal(f.comment_lines as nat)
    } else {
        Seq::empty()
    }
}

/// What saving the trimmed text `val` into header field `field` of `f`
/// gives: the changed font, or the message that refuses it.
pub open spec fn saved_field(f: FIGfont, field: usize, val: Seq<char>) -> Result<FIGfont, Seq<char>> {
    if field == 0 {
        if val.len() == 1 {
            Ok(FIGfont { hardblank: val[0], ..f })
        } else {
            Err("Hardblank must be a single character"@)
        }
    } else if field == 1 {
        match parsed_u32(val) {
            Some(v) => if v >= 1 { Ok(FIGfont { charheight: v, ..f }) } else { Err("Height must be \u{2265} 1"@) },
            None => Err("Invalid number"@),
        }
    } else if field == 2 {
        match parsed_u32(val) {
            Some(v) => if v <= f.charheight { Ok(FIGfont { baseline: v, ..f }) } else { Err("Baseline must be \u{2264} height"@) },
            None => Err("Invalid number"@),
        }
    } else if field == 3 {
        match parsed_u32(val) {
            Some(v) => Ok(FIGfont { maxlength: v, ..f }),
            None => Err("Invalid number"@),
        }
    } else if field == 4 {
        match parsed_i32(val) {
            Some(v) => Ok(FIGfont { full_layout: v, ..f }),
            None => Err("Invalid number"@),
        }
    } else if field == 5 {
        match parsed_i32(val) {
            Some(v) => if v == -1 || v == 0 || v == 1 { Ok(FIGfont { print_direction: v, ..f }) } else { Err("Print direction must be -1, 0, or 1"@) },
            None => Err("Invalid number"@),
        }
    } else if field == 6 {
        match parsed_u32(val) {
            Some(v) => Ok(FIGfont { comment_lines: v, ..f }),
            None => Err("Invalid number"@),
        }
    } else {
        Err(Seq::empty())
    }
}

/// The views of a stack of row sets.
pub open spec fn stack_view(s: Seq<Vec<String>>) -> Seq<Seq<Seq<char>>> {
    s.map_values(|v: Vec<String>| strings_view(v@))
}

/// What taking the canvas `g` as glyph `code` does: when the font has the
/// glyph and the canvas differs from it, the glyph takes the canvas's rows,
/// its old rows go on the undo stack (unless already on top) and the redo
/// stack is emptied; otherwise font and history stay. Nothing else in the
/// editor changes.
pub open spec fn canvas_synced(pre: FontEditor, post: FontEditor, code: u32, g: crate::canvas::GridModel) -> bool {
    &&& (pre.font.is_none() || !pre.font.unwrap().chars@.contains_key(code) || pre.font.unwrap().chars@[code]@ == canvas_rows(g)) ==> post.font == pre.font && post.undo_stack == pre.undo_stack && post.redo_stack == pre.redo_stack
    &&& pre.font.is_some() && pre.font.unwrap().chars@.contains_key(code) && pre.font.unwrap().chars@[code]@ != canvas_rows(g) ==> {
        let f = pre.font.unwrap();
        let prev = f.chars@[code]@;
        let undo = stack_view(pre.undo_stack@);
        &&& post.font.is_some()
        &&& stored(post.font.unwrap(), f, code, canvas_rows(g))
        &&& stack_view(post.undo_stack@) == (if undo.len() > 0 && undo.last() == prev { undo } else { undo.push(prev) })
        &&& post.redo_stack@.len() == 0
    }
    &&& post == (FontEditor { font: post.font, undo_stack: post.undo_stack, redo_stack: post.redo_stack, ..pre })
}

/// The characters of a canvas, row by row.
pub open spec fn canvas_rows(g: crate::canvas::GridModel) -> Seq<Seq<char>> {
    Seq::new(g.height, |y: int| Seq::new(g.width, |x: int| g.cell(x, y).ch))
}

fn rows_equal(a: &Vec<String>, b: &Vec<String>) -> (r: bool)
    ensures
        r == (strings_view(a@) == strings_view(b@)),
{
    if a.len() != b.len() {
        proof {
            if strings_view(a@) == strings_view(b@) {
                assert(strings_view(a@).len() == a@.len());
            }
        }
        return false;
    }
    let mut i: usize = 0;
    while i < a.len()
        invariant
            a@.len() == b@.len(),
            i <= a@.len(),
            forall|k: int| 0 <= k < i ==> a@[k]@ == b@[k]@,
        decreases a@.len() - i,
    {
        if !crate::text::str_eq(a[i].as_str(), b[i].as_str()) {
            proof {
                assert(strings_view(a@)[i as int] == a@[i as int]@);
                assert(strings_view(b@)[i as int] == b@[i as int]@);
            }
            return false;
        }
        i = i + 1;
    }
    assert(strings_view(a@) =~= strings_view(b@));
    true
}

impl FontEditor {
    /// The codes the overview lists: all of them for a blank search, else
    /// those whose decimal digits or lower-case character contain the
    /// trimmed, lower-cased search text.
    pub fn filtered_codes(&self) -> (r: Vec<u32>)
        ensures
            r@ == listed_codes(self.all_codes@, self.search_query@),
    {
        let query = trim(self.search_query.as_str());
        if query.unicode_len() == 0 {
            let mut r: Vec<u32> = Vec::new();
            let mut i: usize = 0;
            while i < self.all_codes.len()
                invariant
                    i <= self.all_codes@.len(),
                    r@ == self.all_codes@.take(i as int),
                decreases self.all_codes@.len() - i,
            {
                r.push(self.all_codes[i]);
                i = i + 1;
                assert(r@ =~= self.all_codes@.take(i as int));
            }
            assert(self.all_codes@.take(i as int) =~= self.all_codes@);
            return r;
        }
        let q = to_lowercase(query.as_str());
        let mut r: Vec<u32> = Vec::new();
        let mut i: usize = 0;
        while i < self.all_codes.len()
            invariant
                i <= self.all_codes@.len(),
                r@ == matching_codes(self.all_codes@.take(i as int), q@),
            decreases self.all_codes@.len() - i,
        {
            let c = self.all_codes[i];
            assert(self.all_codes@.take(i + 1).drop_last() =~= self.all_codes@.take(i as int));
            if code_matches_exec(c, q.as_str()) {
                r.push(c);
            }
            i = i + 1;
        }
        assert(self.all_codes@.take(i as int) =~= self.all_codes@);
        r
    }

    /// How many glyph cells fit across `area_width` columns: each cell is
    /// two wider than the longest glyph and at least 8 wide; at least 1.
    pub fn compute_cols(&self, area_width: u16) -> (n: usize)
        requires
            cells_fit(self.font),
        ensures
            n as int == cols_for(self.font, area_width),
    {
        match &self.font {
            None => 1,
            Some(font) => {
                let a = font.maxlength as u16 + 2;
                let cell_w: u16 = if a > 8 {
                    a
                } else {
                    8
                };
                let c = area_width / cell_w;
                (if c > 1 {
                    c
                } else {
                    1
                }) as usize
            },
        }
    }

    /// The code and glyph edited in the character editor; `None` on other
    /// screens or when the font lacks the code.
    pub fn selected_char(&self) -> (r: Option<(u32, &FIGcharacter)>)
        ensures
            match self.view {
                FontEditorView::CharEditor(code) => match self.font {
                    Some(f) => if f.chars@.contains_key(code) {
                        r is Some && r.unwrap().0 == code && *r.unwrap().1 == f.chars@[code]
                    } else {
                        r is None
                    },
                    None => r is None,
                },
                _ => r is None,
            },
    {
        match self.view {
            FontEditorView::CharEditor(code) => match &self.font {
                Some(f) => match f.chars.get(&code) {
                    Some(ch) => Some((code, ch)),
                    None => None,
                },
                None => None,
            },
            _ => None,
        }
    }

    /// Start editing the selected header field from its current value.
    /// Without a font nothing happens.
    pub fn start_editing_field(&mut self)
        ensures
            start_editing_post(*old(self), *final(self)),
    {
        let text = match &self.font {
            None => {
                return;
            },
            Some(font) => {
                let mut t = String::new();
                if self.selected_field == 0 {
                    push_char(&mut t, font.hardblank);
                } else if self.selected_field == 1 {
                    push_decimal(&mut t, font.charheight as usize);
                } else if self.selected_field == 2 {
                    push_decimal(&mut t, font.baseline as usize);
                } else if self.selected_field == 3 {
                    push_decimal(&mut t, font.maxlength as usize);
                } else if self.selected_field == 4 {
                    push_i32(&mut t, font.full_layout);
                } else if self.selected_field == 5 {
                    push_i32(&mut t, font.print_direction);
                } else if self.selected_field == 6 {
                    push_decimal(&mut t, font.comment_lines as usize);
                }
                assert(t@ =~= header_field_text(*font, self.selected_field));
                t
            },
        };
        self.editing_field = true;
        self.edit_buffer = text;
        self.error_message = String::new();
    }

    /// Save the edited text into the selected header field. Blank text, a
    /// value the field cannot take or a missing font is refused (with a
    /// message, but for a missing font or an unknown field) and `false`
    /// returned.
    pub fn save_current_field(&mut self) -> (ok: bool)
        ensures
            save_field_post(*old(self), *final(self), ok),
    {
        let val = trim(self.edit_buffer.as_str());
        if val.unicode_len() == 0 {
            self.error_message = copy_string("Value cannot be empty");
            return false;
        }
        let field = self.selected_field;
        let ghost f0 = self.font;
        match &mut self.font {
            None => false,
            Some(font) => {
                if field == 0 {
                    if val.unicode_len() == 1 {
                        font.hardblank = val.get_char(0);
                        true
                    } else {
                        self.error_message = copy_string("Hardblank must be a single character");
                        false
                    }
                } else if field == 1 {
                    match parse_u32(val.as_str()) {
                        Some(v) => {
                            if v >= 1 {
                                font.charheight = v;
                                true
                            } else {
                                self.error_message = copy_string("Height must be \u{2265} 1");
                                false
                            }
                        },
                        None => {
                            self.error_message = copy_string("Invalid number");
                            false
                        },
                    }
                } else if field == 2 {
                    match parse_u32(val.as_str()) {
                        Some(v) => {
                            if v <= font.charheight {
                                font.baseline = v;
                                true
                            } else {
                                self.error_message = copy_string("Baseline must be \u{2264} height");
                                false
                            }
                        },
                        None => {
                            self.error_message = copy_string("Invalid number");
                            false
                        },
                    }
                } else if field == 3 {
                    match parse_u32(val.as_str()) {
                        Some(v) => {
                            font.maxlength = v;
                            true
                        },
                        None => {
                            self.error_message = copy_string("Invalid number");
                            false
                        },
                    }
                } else if field == 4 {
                    match parse_i32(val.as_str()) {
                        Some(v) => {
                            font.full_layout = v;
                            true
                        },
                        None => {
                            self.error_message = copy_string("Invalid number");
                            false
                        },
                    }
                } else if field == 5 {
                    match parse_i32(val.as_str()) {
                        Some(v) => {
                            if v == -1 || v == 0 || v == 1 {
                                font.print_direction = v;
                                true
                            } else {
                                self.error_message = copy_string("Print direction must be -1, 0, or 1");
                                false
                            }
                        },
                        None => {
                            self.error_message = copy_string("Invalid number");
                            false
                        },
                    }
                } else if field == 6 {
                    match parse_u32(val.as_str()) {
                        Some(v) => {
                            font.comment_lines = v;
                            true
                        },
                        None => {
                            self.error_message = copy_string("Invalid number");
                            false
                        },
                    }
                } else {
                    false
                }
            },
        }
    }

    /// In the character editor, put back the rows saved last on the undo
    /// stack, keeping the current rows for redo. `false` (and no change)
    /// elsewhere, without the glyph, or with nothing to undo.
    pub fn undo_char(&mut self) -> (done: bool)
        ensures
            undo_post(*old(self), *final(self), done),
    {
        let code = match self.view {
            FontEditorView::CharEditor(c) => c,
            _ => {
                return false;
            },
        };
        if self.undo_stack.len() == 0 {
            return false;
        }
        match &mut self.font {
            None => false,
            Some(font) => {
                let current = match font.chars.get(&code) {
                    Some(ch) => ch.rows_vec(),
                    None => {
                        return false;
                    },
                };
                let restored = self.undo_stack.pop().unwrap();
                self.redo_stack.push(current);
                font.chars.insert(code, FIGcharacter::new(restored));
                proof {
                    let f = old(self).font.unwrap();
                    assert(glyphs(font.chars@) =~= glyphs_with(f, code, stack_view(old(self).undo_stack@).last()));
                    assert(stack_view(self.undo_stack@) =~= stack_view(old(self).undo_stack@).drop_last());
                    assert(stack_view(self.redo_stack@) =~= stack_view(old(self).redo_stack@).push(f.chars@[code]@));
                }
                true
            },
        }
    }

    /// In the character editor, put back the rows saved last on the redo
    /// stack, keeping the current rows for undo. `false` (and no change)
    /// elsewhere, without the glyph, or with nothing to redo.
    pub fn redo_char(&mut self) -> (done: bool)
        ensures
            redo_post(*old(self), *final(self), done),
    {
        let code = match self.view {
            FontEditorView::CharEditor(c) => c,
            _ => {
                return false;
            },
        };
        if self.redo_stack.len() == 0 {
            return false;
        }
        match &mut self.font {
            None => false,
            Some(font) => {
                let current = match font.chars.get(&code) {
                    Some(ch) => ch.rows_vec(),
                    None => {
                        return false;
                    },
                };
                let restored = self.redo_stack.pop().unwrap();
                self.undo_stack.push(current);
                font.chars.insert(code, FIGcharacter::new(restored));
                proof {
                    let f = old(self).font.unwrap();
                    assert(glyphs(font.chars@) =~= glyphs_with(f, code, stack_view(old(self).redo_stack@).last()));
                    assert(stack_view(self.redo_stack@) =~= stack_view(old(self).redo_stack@).drop_last());
                    assert(stack_view(self.undo_stack@) =~= stack_view(old(self).undo_stack@).push(f.chars@[code]@));
                }
                true
            },
        }
    }

    /// Take the characters of `buffer` as the rows of glyph `code`. When they
    /// differ from the glyph, its old rows go on the undo stack (unless they
    /// are already on top) and the redo stack is cleared. Without a font or
    /// the glyph nothing happens.
    pub fn sync_from_canvas(&mut self, code: u32, buffer: &CanvasBuffer)
        requires
            buffer@.wf(),
        ensures
            canvas_synced(*old(self), *final(self), code, buffer@),
    {
        let w = buffer.width();
        let h = buffer.height();
        let mut new_rows: Vec<String> = Vec::new();
        let mut y: usize = 0;
        while y < h
            invariant
                buffer@.wf(),
                w == buffer@.width,
                h == buffer@.height,
                y <= h,
                new_rows@.len() == y,
                strings_view(new_rows@) == canvas_rows(buffer@).take(y as int),
            decreases h - y,
        {
            let mut row = String::new();
            let mut x: usize = 0;
            while x < w
                invariant
                    buffer@.wf(),
                    w == buffer@.width,
                    h == buffer@.height,
                    y < h,
                    x <= w,
                    row@ == canvas_rows(buffer@)[y as int].take(x as int),
                decreases w - x,
            {
                let c = match buffer.get(x, y) {
                    Some(cell) => cell.ch,
                    None => ' ',
                };
                push_char(&mut row, c);
                x = x + 1;
                assert(row@ =~= canvas_rows(buffer@)[y as int].take(x as int));
            }
            assert(canvas_rows(buffer@)[y as int].take(x as int) =~= canvas_rows(buffer@)[y as int]);
            let ghost prev = new_rows@;
            new_rows.push(row);
            y = y + 1;
            assert forall|j: int| 0 <= j < y implies #[trigger] strings_view(new_rows@)[j] == canvas_rows(buffer@).take(y as int)[j] by {
                if j < y - 1 {
                    assert(new_rows@[j] == prev[j]);
                    assert(strings_view(prev)[j] == canvas_rows(buffer@).take(y - 1)[j]);
                }
            }
            assert(strings_view(new_rows@) =~= canvas_rows(buffer@).take(y as int));
        }
        assert(canvas_rows(buffer@).take(y as int) =~= canvas_rows(buffer@));
        match &mut self.font {
            None => {},
            Some(font) => {
                let current = match font.chars.get(&code) {
                    Some(ch) => ch.rows_vec(),
                    None => {
                        return;
                    },
                };
                if !rows_equal(&current, &new_rows) {
                    let n = self.undo_stack.len();
                    let same_top = n > 0 && rows_equal(&self.undo_stack[n - 1], &current);
                    if !same_top {
                        self.undo_stack.push(current);
                    }
                    self.redo_stack = Vec::new();
                    font.chars.insert(code, FIGcharacter::new(new_rows));
                    proof {
                        let f = old(self).font.unwrap();
                        assert(glyphs(font.chars@) =~= glyphs_with(f, code, canvas_rows(buffer@)));
                        let undo = stack_view(old(self).undo_stack@);
                        if !same_top {
                            assert(stack_view(self.undo_stack@) =~= undo.push(f.chars@[code]@));
                        } else {
                            assert(undo.last() == strings_view(old(self).undo_stack@[n - 1]@));
                        }
                    }
                }
            },
        }
    }
}


/// What `enter_header_editor` does.
pub open spec fn enter_header_post(pre: FontEditor, post: FontEditor) -> bool {
    &&& (post.view == FontEditorView::HeaderEditor)
    &&& (post.selected_field == 0)
    &&& (!post.editing_field)
    &&& (post.edit_buffer@.len() == 0)
    &&& (post.error_message@.len() == 0)
    &&& (post.font == pre.font)
    &&& (post.all_codes == pre.all_codes)
    &&& search_same(pre, post) && stacks_same(pre, post) && pre.smush_selected == post.smush_selected
    &&& code_prompt_same(pre, post) && transform_prompt_same(pre, post) && pre.current_path == post.current_path
    &&& post.selected_index == pre.selected_index
}

/// What `enter_smush_editor` does.
pub open spec fn enter_smush_post(pre: FontEditor, post: FontEditor) -> bool {
    &&& (post.view == FontEditorView::SmushRuleEditor)
    &&& (post.smush_selected == 0)
    &&& (post.font == pre.font)
    &&& (post.all_codes == pre.all_codes)
    &&& (post.error_message == pre.error_message)
    &&& search_same(pre, post) && stacks_same(pre, post) && header_prompt_same(pre, post)
    &&& code_prompt_same(pre, post) && transform_prompt_same(pre, post) && pre.current_path == post.current_path
    &&& post.selected_index == pre.selected_index
}

/// What `enter_transform_editor` does.
pub open spec fn enter_transform_post(pre: FontEditor, post: FontEditor) -> bool {
    &&& (post.view == FontEditorView::TransformEditor)
    &&& (post.selected_transform == 0)
    &&& (!post.input_active)
    &&& (post.input_buffer@.len() == 0)
    &&& (post.sub_step == 0)
    &&& (post.transform_submode.is_none())
    &&& (post.transform_font_name@.len() == 0)
    &&& (post.error_message@.len() == 0)
    &&& (post.font == pre.font)
    &&& (post.all_codes == pre.all_codes)
    &&& search_same(pre, post) && stacks_same(pre, post) && header_prompt_same(pre, post) && pre.smush_selected == post.smush_selected
    &&& code_prompt_same(pre, post) && pre.current_path == post.current_path
    &&& post.font_storage_name == pre.font_storage_name && post.glyph_request == pre.glyph_request
    &&& post.selected_index == pre.selected_index
}

/// What `add_char` does with `code`.
pub open spec fn add_char_post(pre: FontEditor, post: FontEditor, code: u32) -> bool {
    &&& (!valid_code(code) ==> post.error_message@ == "Invalid code point: U+"@
            + hex_upper(code as nat) && post.font == pre.font
            && post.all_codes == pre.all_codes && post.view == pre.view && post.selected_index == pre.selected_index)
    &&& (valid_code(code) && pre.font.is_none() ==> post.error_message
            == pre.error_message && post.font.is_none()
            && post.all_codes == pre.all_codes && post.view == pre.view && post.selected_index == pre.selected_index)
    &&& (valid_code(code) && pre.font.is_some() && pre.font.unwrap().chars@.contains_key(code)
            ==> post.error_message@ == "Code U+"@ + hex_upper(code as nat)
            + " already exists"@ && post.font == pre.font && post.all_codes
            == pre.all_codes && post.view == pre.view
            && post.selected_index == pre.selected_index)
    &&& (valid_code(code) && pre.font.is_some() && !pre.font.unwrap().chars@.contains_key(code)
            ==> {
            let f = pre.font.unwrap();
            let g = post.font.unwrap();
            &&& post.font.is_some()
            &&& stored(g, f, code, fresh_glyph(f))
            &&& codes_in_sync(&post)
            &&& post.view == FontEditorView::Overview
            &&& post.selected_index == position_or_zero(post.all_codes@, code)
            &&& post.all_codes@[post.selected_index as int] == code
            &&& post.error_message@.len() == 0
        })
}

/// What `delete_char` does with `code`.
pub open spec fn delete_char_post(pre: FontEditor, post: FontEditor, code: u32) -> bool {
    &&& (pre.font.is_none() ==> post.font.is_none() && post.error_message
            == pre.error_message && post.all_codes == pre.all_codes
            && post.view == pre.view && post.selected_index == pre.selected_index)
    &&& (pre.font.is_some() && !pre.font.unwrap().chars@.contains_key(code) ==> post.error_message@ == "Code U+"@ + hex_upper(code as nat) + " not found"@
            && post.font == pre.font && post.all_codes == pre.all_codes && post.view == pre.view && post.selected_index
            == pre.selected_index)
    &&& (pre.font.is_some() && pre.font.unwrap().chars@.contains_key(code) ==> {
            let f = pre.font.unwrap();
            let g = post.font.unwrap();
            let rest = glyphs(f.chars@).remove(code);
            &&& post.font.is_some()
            &&& same_header(g, f)
            &&& glyphs(g.chars@) == (if rest.contains_key(0) {
                rest
            } else {
                rest.insert(0, fresh_glyph(f))
            })
            &&& codes_in_sync(&post)
            &&& post.view == FontEditorView::Overview
            &&& post.selected_index == (if pre.selected_index
                >= post.all_codes@.len() {
                if post.all_codes@.len() == 0 {
                    0
                } else {
                    (post.all_codes@.len() - 1) as usize
                }
            } else {
                pre.selected_index
            })
            &&& post.error_message@.len() == 0
        })
}

/// What `copy_char` does with `src` and `dst`.
pub open spec fn copy_char_post(pre: FontEditor, post: FontEditor, src: u32, dst: u32) -> bool {
    &&& (!valid_code(dst) ==> post.error_message@ == "Invalid destination code point: U+"@ + hex_upper(dst as nat) && post.font == pre.font && post.all_codes == pre.all_codes && post.view == pre.view && post.selected_index == pre.selected_index)
    &&& (valid_code(dst) && pre.font.is_none() ==> post.font.is_none() && post.error_message == pre.error_message && post.all_codes == pre.all_codes && post.view == pre.view && post.selected_index == pre.selected_index)
    &&& (valid_code(dst) && pre.font.is_some() ==> {
            let f = pre.font.unwrap();
            let g = post.font.unwrap();
            &&& post.font.is_some()
            &&& stored(g, f, dst, if f.chars@.contains_key(src) {
                f.chars@[src]@
            } else {
                fresh_glyph(f)
            })
            &&& codes_in_sync(&post)
            &&& post.view == FontEditorView::Overview
            &&& post.selected_index == position_or_zero(post.all_codes@, dst)
            &&& post.all_codes@[post.selected_index as int] == dst
            &&& post.error_message@.len() == 0
        })
}

/// What `transform_resize` does with `new_height`.
pub open spec fn resize_post(pre: FontEditor, post: FontEditor, new_height: u32) -> bool {
    &&& (pre.font.is_none() ==> post.font.is_none() && post.error_message == pre.error_message)
    &&& (pre.font.is_some() && new_height == 0 ==> post.font == pre.font && post.error_message@ == "Height must be \u{2265} 1"@)
    &&& (pre.font.is_some() && new_height != 0 && new_height == pre.font.unwrap().charheight ==> post.font == pre.font && post.error_message == pre.error_message)
    &&& (pre.font.is_some() && new_height != 0 && new_height != pre.font.unwrap().charheight ==> {
            let f = pre.font.unwrap();
            let g = post.font.unwrap();
            &&& post.font.is_some()
            &&& transformed_font(g, f, GlyphOp::Resize(new_height, f.charheight, f.maxlength))
            &&& g.charheight == new_height
            &&& g.baseline == (if f.baseline < new_height { f.baseline } else { new_height })
            &&& g.hardblank == f.hardblank
            &&& g.full_layout == f.full_layout
            &&& g.print_direction == f.print_direction
            &&& g.comment_lines == f.comment_lines
            &&& post.error_message == pre.error_message
        })
    &&& (post.all_codes == pre.all_codes)
    &&& (post.view == pre.view)
    &&& (post.selected_index == pre.selected_index)
}

/// What `transform_italicize` does.
pub open spec fn italicize_post(pre: FontEditor, post: FontEditor) -> bool {
    &&& (pre.font.is_none() ==> post.font.is_none())
    &&& (pre.font.is_some() ==> post.font.is_some() && transformed_font(post.font.unwrap(), pre.font.unwrap(), GlyphOp::Italicize) && post.font.unwrap().charheight == pre.font.unwrap().charheight)
    &&& (post.all_codes == pre.all_codes)
    &&& (post.error_message == pre.error_message)
    &&& (post.view == pre.view)
    &&& (post.selected_index == pre.selected_index)
}

/// What `transform_bold` does.
pub open spec fn bold_post(pre: FontEditor, post: FontEditor) -> bool {
    &&& (pre.font.is_none() ==> post.font.is_none())
    &&& (pre.font.is_some() ==> post.font.is_some() && transformed_font(post.font.unwrap(), pre.font.unwrap(), GlyphOp::Bold) && post.font.unwrap().charheight == pre.font.unwrap().charheight)
    &&& (post.all_codes == pre.all_codes)
    &&& (post.error_message == pre.error_message)
    &&& (post.view == pre.view)
    &&& (post.selected_index == pre.selected_index)
}

/// What `transform_mirror` does with `mode`.
pub open spec fn mirror_post(pre: FontEditor, post: FontEditor, mode: MirrorMode) -> bool {
    &&& (pre.font.is_none() ==> post.font.is_none())
    &&& (pre.font.is_some() ==> post.font.is_some() && transformed_font(post.font.unwrap(), pre.font.unwrap(), GlyphOp::Mirror(mode)) && post.font.unwrap().charheight == pre.font.unwrap().charheight)
    &&& (post.all_codes == pre.all_codes)
    &&& (post.error_message == pre.error_message)
    &&& (post.view == pre.view)
    &&& (post.selected_index == pre.selected_index)
}

/// What `start_editing_field` does.
pub open spec fn start_editing_post(pre: FontEditor, post: FontEditor) -> bool {
    &&& (pre.font.is_none() ==> post.editing_field == pre.editing_field && post.edit_buffer == pre.edit_buffer && post.error_message == pre.error_message)
    &&& (pre.font.is_some() ==> post.editing_field && post.edit_buffer@ == header_field_text(pre.font.unwrap(), pre.selected_field) && post.error_message@.len() == 0)
    &&& (post.font == pre.font)
    &&& (post.selected_field == pre.selected_field)
    &&& (post.view == pre.view)
    &&& search_same(pre, post) && stacks_same(pre, post) && pre.smush_selected == post.smush_selected
    &&& code_prompt_same(pre, post) && transform_prompt_same(pre, post) && pre.current_path == post.current_path
    &&& post.selected_index == pre.selected_index && post.all_codes == pre.all_codes
}

/// What `save_current_field` does, returning `ok`.
pub open spec fn save_field_post(pre: FontEditor, post: FontEditor, ok: bool) -> bool {
    &&& (trimmed(pre.edit_buffer@).len() == 0 ==> !ok && post.error_message@ == "Value cannot be empty"@ && post.font == pre.font)
    &&& (trimmed(pre.edit_buffer@).len() != 0 && pre.font.is_none() ==> !ok && post.font.is_none() && post.error_message == pre.error_message)
    &&& (trimmed(pre.edit_buffer@).len() != 0 && pre.font.is_some() ==> match saved_field(pre.font.unwrap(), pre.selected_field, trimmed(pre.edit_buffer@)) {
            Ok(g) => ok && post.font == Some(g) && post.error_message == pre.error_message,
            Err(m) => !ok && post.font == pre.font && (pre.selected_field < HEADER_FIELD_COUNT ==> post.error_message@ == m) && (pre.selected_field >= HEADER_FIELD_COUNT ==> post.error_message == pre.error_message),
        })
    &&& (post.selected_field == pre.selected_field)
    &&& (post.edit_buffer == pre.edit_buffer)
    &&& (post.all_codes == pre.all_codes)
    &&& (post.view == pre.view)
    &&& (post.editing_field == pre.editing_field)
    &&& search_same(pre, post) && stacks_same(pre, post) && pre.smush_selected == post.smush_selected
    &&& code_prompt_same(pre, post) && transform_prompt_same(pre, post) && pre.current_path == post.current_path
    &&& post.selected_index == pre.selected_index
}

/// What `undo_char` does, returning `done`.
pub open spec fn undo_post(pre: FontEditor, post: FontEditor, done: bool) -> bool {
    &&& (done == (pre.view is CharEditor && pre.font.is_some() && pre.font.unwrap().chars@.contains_key(pre.view->CharEditor_0) && pre.undo_stack@.len() > 0))
    &&& (done ==> {
            let code = pre.view->CharEditor_0;
            let f = pre.font.unwrap();
            &&& post.font.is_some()
            &&& stored(post.font.unwrap(), f, code, stack_view(pre.undo_stack@).last())
            &&& stack_view(post.undo_stack@) == stack_view(pre.undo_stack@).drop_last()
            &&& stack_view(post.redo_stack@) == stack_view(pre.redo_stack@).push(f.chars@[code]@)
        })
    &&& (!done ==> post.font == pre.font && post.undo_stack == pre.undo_stack && post.redo_stack == pre.redo_stack)
    &&& (post.view == pre.view)
    &&& (post.all_codes == pre.all_codes)
    &&& search_same(pre, post) && header_prompt_same(pre, post) && pre.smush_selected == post.smush_selected
    &&& code_prompt_same(pre, post) && transform_prompt_same(pre, post) && pre.current_path == post.current_path
    &&& post.selected_index == pre.selected_index && post.error_message == pre.error_message
}

/// What `redo_char` does, returning `done`.
pub open spec fn redo_post(pre: FontEditor, post: FontEditor, done: bool) -> bool {
    &&& (done == (pre.view is CharEditor && pre.font.is_some() && pre.font.unwrap().chars@.contains_key(pre.view->CharEditor_0) && pre.redo_stack@.len() > 0))
    &&& (done ==> {
            let code = pre.view->CharEditor_0;
            let f = pre.font.unwrap();
            &&& post.font.is_some()
            &&& stored(post.font.unwrap(), f, code, stack_view(pre.redo_stack@).last())
            &&& stack_view(post.redo_stack@) == stack_view(pre.redo_stack@).drop_last()
            &&& stack_view(post.undo_stack@) == stack_view(pre.undo_stack@).push(f.chars@[code]@)
        })
    &&& (!done ==> post.font == pre.font && post.undo_stack == pre.undo_stack && post.redo_stack == pre.redo_stack)
    &&& (post.view == pre.view)
    &&& (post.all_codes == pre.all_codes)
    &&& search_same(pre, post) && header_prompt_same(pre, post) && pre.smush_selected == post.smush_selected
    &&& code_prompt_same(pre, post) && transform_prompt_same(pre, post) && pre.current_path == post.current_path
    &&& post.selected_index == pre.selected_index && post.error_message == pre.error_message
}


/// How many glyph cells fit across `area_width` columns: each cell is two
/// wider than the longest glyph and at least 8 wide; at least 1.
pub open spec fn cols_for(font: Option<FIGfont>, area_width: u16) -> int {
    match font {
        None => 1,
        Some(f) => {
            let w: int = if (f.maxlength as u16) + 2 > 8 { (f.maxlength as u16) + 2 } else { 8 };
            if area_width as int / w > 1 { area_width as int / w } else { 1 }
        },
    }
}

/// The cell width of `font` fits in 16 bits.
pub open spec fn cells_fit(font: Option<FIGfont>) -> bool {
    font matches Some(f) ==> (f.maxlength as u16) + 2 <= u16::MAX
}

/// The code the delete prompt acts on: the selected listed code, or 0.
pub open spec fn delete_target(ed: FontEditor) -> u32 {
    let listed = listed_codes(ed.all_codes@, ed.search_query@);
    if ed.selected_index < listed.len() {
        listed[ed.selected_index as int]
    } else {
        0
    }
}

/// The font, code list, screen, selection and message agree.
pub open spec fn core_same(a: FontEditor, b: FontEditor) -> bool {
    &&& a.font == b.font
    &&& a.all_codes == b.all_codes
    &&& a.view == b.view
    &&& a.selected_index == b.selected_index
    &&& a.error_message == b.error_message
}

/// What running the code prompt does: a blank or unreadable code is
/// refused with a message; a code adds a glyph, starts or finishes a copy,
/// or (after a `y`) deletes the selected glyph. The prompt closes, except
/// after the first step of a copy.
pub open spec fn execute_code_post(pre: FontEditor, post: FontEditor) -> bool {
    let buf = trimmed(pre.code_input_buffer@);
    &&& search_same(pre, post)
    &&& stacks_same(pre, post)
    &&& header_prompt_same(pre, post)
    &&& pre.smush_selected == post.smush_selected
    &&& transform_prompt_same(pre, post)
    &&& pre.current_path == post.current_path
    &&& (buf.len() == 0 ==> {
        &&& post.error_message@ == "No code entered"@
        &&& !post.code_input_active
        &&& post.code_input_buffer == pre.code_input_buffer
        &&& post.code_input_mode == pre.code_input_mode
        &&& post.copy_source_code == pre.copy_source_code
        &&& post.font == pre.font
        &&& post.all_codes == pre.all_codes
        &&& post.view == pre.view
        &&& post.selected_index == pre.selected_index
    })
    &&& (buf.len() > 0 && parsed_u32(buf) is None ==> {
        &&& post.error_message@ == "Invalid code: "@ + buf
        &&& !post.code_input_active
        &&& post.code_input_buffer == pre.code_input_buffer
        &&& post.code_input_mode == pre.code_input_mode
        &&& post.copy_source_code == pre.copy_source_code
        &&& post.font == pre.font
        &&& post.all_codes == pre.all_codes
        &&& post.view == pre.view
        &&& post.selected_index == pre.selected_index
    })
    &&& (buf.len() > 0 && parsed_u32(buf) is Some ==> {
        let code = parsed_u32(buf).unwrap();
        match pre.code_input_mode {
            CodeInputMode::Add => {
                &&& add_char_post(pre, post, code)
                &&& !post.code_input_active
                &&& post.code_input_buffer@.len() == 0
                &&& post.code_input_mode == pre.code_input_mode
                &&& post.copy_source_code == pre.copy_source_code
            },
            CodeInputMode::CopySource => {
                &&& core_same(pre, post)
                &&& post.copy_source_code == code
                &&& post.code_input_mode == CodeInputMode::CopyDest
                &&& post.code_input_active == pre.code_input_active
                &&& post.code_input_buffer@.len() == 0
            },
            CodeInputMode::CopyDest => {
                &&& copy_char_post(pre, post, pre.copy_source_code, code)
                &&& !post.code_input_active
                &&& post.code_input_buffer@.len() == 0
                &&& post.code_input_mode == pre.code_input_mode
                &&& post.copy_source_code == pre.copy_source_code
            },
            CodeInputMode::DeleteConfirm => {
                &&& (lowercase(buf) == "y"@ ==> delete_char_post(pre, post, delete_target(pre)))
                &&& (lowercase(buf) != "y"@ ==> core_same(pre, post))
                &&& !post.code_input_active
                &&& post.code_input_buffer@.len() == 0
                &&& post.code_input_mode == pre.code_input_mode
                &&& post.copy_source_code == pre.copy_source_code
            },
        }
    })
}

/// The characters the code prompt accepts: digits, and `y`/`n` in either
/// case when confirming a deletion.
pub open spec fn code_prompt_accepts(mode: CodeInputMode, c: char) -> bool {
    is_digit_char(c) || (mode == CodeInputMode::DeleteConfirm && (c == 'y' || c == 'Y' || c == 'n' || c == 'N'))
}

/// `s` without its last character (unchanged when empty), as
/// `String::pop` leaves it.
pub open spec fn popped(s: Seq<char>) -> Seq<char> {
    if s.len() > 0 {
        s.drop_last()
    } else {
        s
    }
}

/// What a key does while the code prompt is open.
pub open spec fn code_input_key_post(pre: FontEditor, post: FontEditor, code: KeyCode, used: bool) -> bool {
    match code {
        KeyCode::Char(c) => if code_prompt_accepts(pre.code_input_mode, c) {
            &&& used
            &&& post.code_input_buffer@ == pre.code_input_buffer@.push(c)
            &&& core_same(pre, post)
            &&& post.code_input_active == pre.code_input_active
            &&& post.code_input_mode == pre.code_input_mode
            &&& post.copy_source_code == pre.copy_source_code
            &&& search_same(pre, post) && stacks_same(pre, post) && header_prompt_same(pre, post)
            &&& transform_prompt_same(pre, post)
        } else {
            !used && post == pre
        },
        KeyCode::Backspace => {
            &&& used
            &&& post.code_input_buffer@ == popped(pre.code_input_buffer@)
            &&& core_same(pre, post)
            &&& post.code_input_active == pre.code_input_active
            &&& post.code_input_mode == pre.code_input_mode
            &&& post.copy_source_code == pre.copy_source_code
            &&& search_same(pre, post) && stacks_same(pre, post) && header_prompt_same(pre, post)
            &&& transform_prompt_same(pre, post)
        },
        KeyCode::Esc => {
            &&& used
            &&& !post.code_input_active
            &&& post.code_input_buffer@.len() == 0
            &&& post.error_message@.len() == 0
            &&& post.font == pre.font && post.all_codes == pre.all_codes && post.view == pre.view
            &&& post.selected_index == pre.selected_index
            &&& post.code_input_mode == pre.code_input_mode
            &&& post.copy_source_code == pre.copy_source_code
            &&& search_same(pre, post) && stacks_same(pre, post) && header_prompt_same(pre, post)
            &&& transform_prompt_same(pre, post)
        },
        KeyCode::Enter => used && execute_code_post(pre, post),
        _ => !used && post == pre,
    }
}

impl FontEditor {
    /// Run the code prompt: see `execute_code_post`.
    pub fn execute_code_input(&mut self)
        ensures
            execute_code_post(*old(self), *final(self)),
    {
        let buf = trim(self.code_input_buffer.as_str());
        if buf.unicode_len() == 0 {
            self.error_message = copy_string("No code entered");
            self.code_input_active = false;
            return;
        }
        let code = match parse_u32(buf.as_str()) {
            Some(v) => v,
            None => {
                let mut m = String::new();
                push_str(&mut m, "Invalid code: ");
                push_str(&mut m, buf.as_str());
                self.error_message = m;
                self.code_input_active = false;
                return;
            },
        };
        match self.code_input_mode {
            CodeInputMode::Add => {
                self.add_char(code);
            },
            CodeInputMode::CopySource => {
                self.copy_source_code = code;
                self.code_input_mode = CodeInputMode::CopyDest;
                self.code_input_buffer = String::new();
                return;
            },
            CodeInputMode::CopyDest => {
                let src = self.copy_source_code;
                self.copy_char(src, code);
            },
            CodeInputMode::DeleteConfirm => {
                let filtered = self.filtered_codes();
                let selected = if self.selected_index < filtered.len() {
                    filtered[self.selected_index]
                } else {
                    0
                };
                let low = to_lowercase(buf.as_str());
                if crate::text::str_eq(low.as_str(), "y") {
                    self.delete_char(selected);
                }
            },
        }
        self.code_input_active = false;
        self.code_input_buffer = String::new();
    }

    /// A key while the code prompt is open: see `code_input_key_post`.
    pub fn handle_key_code_input(&mut self, code: KeyCode) -> (used: bool)
        ensures
            code_input_key_post(*old(self), *final(self), code, used),
    {
        match code {
            KeyCode::Char(c) => {
                if crate::keys::is_ascii_digit(c) || (self.code_input_mode == CodeInputMode::DeleteConfirm && (c == 'y' || c == 'Y' || c == 'n' || c == 'N')) {
                    push_char(&mut self.code_input_buffer, c);
                    true
                } else {
                    false
                }
            },
            KeyCode::Backspace => {
                pop_char(&mut self.code_input_buffer);
                true
            },
            KeyCode::Esc => {
                self.code_input_active = false;
                self.code_input_buffer = String::new();
                self.error_message = String::new();
                true
            },
            KeyCode::Enter => {
                self.execute_code_input();
                true
            },
            _ => false,
        }
    }
}


/// Only the selection may differ.
pub open spec fn only_selection_moved(pre: FontEditor, post: FontEditor) -> bool {
    &&& post.font == pre.font && post.all_codes == pre.all_codes && post.view == pre.view
    &&& post.error_message == pre.error_message
    &&& ui_same(pre, post)
}

/// The search was (re)started: its text as given, the list scrolled to the
/// top and the first code selected; nothing else changes.
pub open spec fn search_reset(pre: FontEditor, post: FontEditor, query: Seq<char>, active: bool) -> bool {
    &&& post.search_query@ == query
    &&& post.search_active == active
    &&& post.grid_scroll == 0
    &&& post.selected_index == 0
    &&& post.font == pre.font && post.all_codes == pre.all_codes && post.view == pre.view
    &&& post.error_message == pre.error_message
    &&& stacks_same(pre, post) && header_prompt_same(pre, post) && pre.smush_selected == post.smush_selected
    &&& code_prompt_same(pre, post) && transform_prompt_same(pre, post) && pre.current_path == post.current_path
}

/// The code prompt opened in `mode`, empty, with no message.
pub open spec fn code_prompt_opened(pre: FontEditor, post: FontEditor, mode: CodeInputMode) -> bool {
    &&& post.code_input_active
    &&& post.code_input_mode == mode
    &&& post.code_input_buffer@.len() == 0
    &&& post.error_message@.len() == 0
    &&& post.copy_source_code == pre.copy_source_code
    &&& post.font == pre.font && post.all_codes == pre.all_codes && post.view == pre.view
    &&& post.selected_index == pre.selected_index
    &&& search_same(pre, post) && stacks_same(pre, post) && header_prompt_same(pre, post)
    &&& pre.smush_selected == post.smush_selected
    &&& transform_prompt_same(pre, post) && pre.current_path == post.current_path
}

/// The overview keys are safe: the cell width fits, and moving the
/// selection down or right cannot overflow.
pub open spec fn overview_key_ok(ed: FontEditor, code: KeyCode, area_width: u16) -> bool {
    let listed = listed_codes(ed.all_codes@, ed.search_query@);
    &&& cells_fit(ed.font)
    &&& (!ed.code_input_active && code == KeyCode::Down && listed.len() > 0 ==> ed.selected_index + cols_for(ed.font, area_width) <= usize::MAX)
    &&& (!ed.code_input_active && code == KeyCode::Right && listed.len() > 0 ==> ed.selected_index + 1 <= usize::MAX)
}

/// What a key does on the overview.
pub open spec fn overview_key_post(pre: FontEditor, post: FontEditor, code: KeyCode, area_width: u16, used: bool) -> bool {
    let listed = listed_codes(pre.all_codes@, pre.search_query@);
    let n = listed.len();
    let cols = cols_for(pre.font, area_width);
    let sel = pre.selected_index;
    if pre.code_input_active {
        code_input_key_post(pre, post, code, used)
    } else {
        match code {
            KeyCode::Char(c) => if c == '/' && !pre.search_active {
                used && search_reset(pre, post, pre.search_query@, true)
            } else if !crate::keys::is_control_char(c) && pre.search_active {
                used && search_reset(pre, post, pre.search_query@.push(c), true)
            } else if c == 'H' {
                used && enter_header_post(pre, post)
            } else if c == 'S' {
                used && enter_smush_post(pre, post)
            } else if c == 'T' {
                used && enter_transform_post(pre, post)
            } else if c == 'A' {
                used && code_prompt_opened(pre, post, CodeInputMode::Add)
            } else if c == 'D' {
                used && code_prompt_opened(pre, post, CodeInputMode::DeleteConfirm)
            } else if c == 'C' {
                used && code_prompt_opened(pre, post, CodeInputMode::CopySource)
            } else {
                !used && post == pre
            },
            KeyCode::Backspace => if pre.search_active {
                used && search_reset(pre, post, popped(pre.search_query@), true)
            } else {
                used && post == pre
            },
            KeyCode::Up => used && only_selection_moved(pre, post) && post.selected_index == (if n > 0 && sel >= cols {
                (sel - cols) as usize
            } else {
                sel
            }),
            KeyCode::Down => used && only_selection_moved(pre, post) && post.selected_index == (if n > 0 {
                if sel + cols < n - 1 { (sel + cols) as usize } else { (n - 1) as usize }
            } else {
                sel
            }),
            KeyCode::Left => used && only_selection_moved(pre, post) && post.selected_index == (if sel > 0 {
                (sel - 1) as usize
            } else {
                sel
            }),
            KeyCode::Right => used && only_selection_moved(pre, post) && post.selected_index == (if n > 0 {
                if sel + 1 < n - 1 { (sel + 1) as usize } else { (n - 1) as usize }
            } else {
                sel
            }),
            KeyCode::Enter => used && core_same(FontEditor { view: post.view, ..pre }, post) && ui_same(pre, post) && post.view == (if n > 0 && sel < n {
                FontEditorView::CharEditor(listed[sel as int])
            } else {
                pre.view
            }),
            KeyCode::Esc => if pre.search_active {
                used && search_reset(pre, post, Seq::empty(), false)
            } else {
                !used && post == pre
            },
            _ => !used && post == pre,
        }
    }
}

impl FontEditor {
    /// A key on the overview: see `overview_key_post`.
    pub fn handle_key_overview(&mut self, code: KeyCode, area_width: u16) -> (used: bool)
        requires
            overview_key_ok(*old(self), code, area_width),
        ensures
            overview_key_post(*old(self), *final(self), code, area_width, used),
    {
        let filtered = self.filtered_codes();
        let cols = self.compute_cols(area_width);
        if self.code_input_active {
            return self.handle_key_code_input(code);
        }
        let n = filtered.len();
        match code {
            KeyCode::Char(c) => {
                if c == '/' && !self.search_active {
                    self.search_active = true;
                    self.grid_scroll = 0;
                    self.selected_index = 0;
                    true
                } else if !is_control(c) && self.search_active {
                    push_char(&mut self.search_query, c);
                    self.grid_scroll = 0;
                    self.selected_index = 0;
                    true
                } else if c == 'H' {
                    self.enter_header_editor();
                    true
                } else if c == 'S' {
                    self.enter_smush_editor();
                    true
                } else if c == 'T' {
                    self.enter_transform_editor();
                    true
                } else if c == 'A' || c == 'D' || c == 'C' {
                    self.code_input_active = true;
                    self.code_input_mode = if c == 'A' {
                        CodeInputMode::Add
                    } else if c == 'D' {
                        CodeInputMode::DeleteConfirm
                    } else {
                        CodeInputMode::CopySource
                    };
                    self.code_input_buffer = String::new();
                    self.error_message = String::new();
                    true
                } else {
                    false
                }
            },
            KeyCode::Backspace => {
                if self.search_active {
                    pop_char(&mut self.search_query);
                    self.grid_scroll = 0;
                    self.selected_index = 0;
                }
                true
            },
            KeyCode::Up => {
                if n > 0 && self.selected_index >= cols {
                    self.selected_index = self.selected_index - cols;
                }
                true
            },
            KeyCode::Down => {
                if n > 0 {
                    let a = self.selected_index + cols;
                    self.selected_index = if a < n - 1 {
                        a
                    } else {
                        n - 1
                    };
                }
                true
            },
            KeyCode::Left => {
                if self.selected_index > 0 {
                    self.selected_index = self.selected_index - 1;
                }
                true
            },
            KeyCode::Right => {
                if n > 0 {
                    let a = self.selected_index + 1;
                    self.selected_index = if a < n - 1 {
                        a
                    } else {
                        n - 1
                    };
                }
                true
            },
            KeyCode::Enter => {
                if n > 0 && self.selected_index < n {
                    self.view = FontEditorView::CharEditor(filtered[self.selected_index]);
                }
                true
            },
            KeyCode::Esc => {
                if self.search_active {
                    self.search_query = String::new();
                    self.search_active = false;
                    self.grid_scroll = 0;
                    self.selected_index = 0;
                    true
                } else {
                    false
                }
            },
            _ => false,
        }
    }
}


/// Everything but the header editor's field, mode, text and the message
/// agrees.
pub open spec fn header_frame(pre: FontEditor, post: FontEditor) -> bool {
    &&& post.all_codes == pre.all_codes && post.view == pre.view && post.selected_index == pre.selected_index
    &&& search_same(pre, post) && stacks_same(pre, post) && pre.smush_selected == post.smush_selected
    &&& code_prompt_same(pre, post) && transform_prompt_same(pre, post) && pre.current_path == post.current_path
}

/// What a key does in the header editor.
pub open spec fn header_key_post(pre: FontEditor, post: FontEditor, code: KeyCode, used: bool) -> bool {
    if pre.editing_field {
        match code {
            KeyCode::Enter => {
                let val = trimmed(pre.edit_buffer@);
                &&& used
                &&& header_frame(pre, post)
                &&& post.selected_field == pre.selected_field
                &&& post.edit_buffer == pre.edit_buffer
                &&& (val.len() == 0 ==> post.error_message@ == "Value cannot be empty"@ && post.font == pre.font && post.editing_field)
                &&& (val.len() > 0 && pre.font.is_none() ==> post.error_message@.len() == 0 && post.font.is_none() && post.editing_field)
                &&& (val.len() > 0 && pre.font.is_some() ==> match saved_field(pre.font.unwrap(), pre.selected_field, val) {
                    Ok(g) => post.font == Some(g) && !post.editing_field && post.error_message@.len() == 0,
                    Err(m) => post.font == pre.font && post.editing_field && (pre.selected_field < HEADER_FIELD_COUNT ==> post.error_message@ == m) && (pre.selected_field >= HEADER_FIELD_COUNT ==> post.error_message@.len() == 0),
                })
            },
            KeyCode::Esc => used && header_frame(pre, post) && post.font == pre.font && !post.editing_field && post.edit_buffer@.len() == 0 && post.error_message@.len() == 0 && post.selected_field == pre.selected_field,
            KeyCode::Char(c) => if !crate::keys::is_control_char(c) {
                used && header_frame(pre, post) && post.font == pre.font && post.editing_field && post.edit_buffer@ == pre.edit_buffer@.push(c) && post.error_message@.len() == 0 && post.selected_field == pre.selected_field
            } else {
                !used && post == pre
            },
            KeyCode::Backspace => used && header_frame(pre, post) && post.font == pre.font && post.editing_field && post.edit_buffer@ == popped(pre.edit_buffer@) && post.error_message@.len() == 0 && post.selected_field == pre.selected_field,
            _ => !used && post == pre,
        }
    } else {
        match code {
            KeyCode::Up => used && header_frame(pre, post) && post.font == pre.font && post.editing_field == pre.editing_field && post.edit_buffer == pre.edit_buffer && post.error_message@.len() == 0 && post.selected_field == (if pre.selected_field > 0 { (pre.selected_field - 1) as usize } else { pre.selected_field }),
            KeyCode::Down => used && header_frame(pre, post) && post.font == pre.font && post.editing_field == pre.editing_field && post.edit_buffer == pre.edit_buffer && post.error_message@.len() == 0 && post.selected_field == (if pre.selected_field < HEADER_FIELD_COUNT - 1 { (pre.selected_field + 1) as usize } else { pre.selected_field }),
            KeyCode::Enter => used && start_editing_post(pre, post),
            KeyCode::Esc => used && post.view == FontEditorView::Overview && post.error_message@.len() == 0 && post.font == pre.font && post.all_codes == pre.all_codes && post.selected_index == pre.selected_index && ui_same(pre, post),
            _ => !used && post == pre,
        }
    }
}

/// The smushing-rule keys are safe: the selection can move down, and a
/// toggled rule is one of the six.
pub open spec fn smush_key_ok(ed: FontEditor, code: KeyCode) -> bool {
    &&& (code == KeyCode::Down ==> ed.smush_selected < usize::MAX)
    &&& ((code == KeyCode::Enter || code == KeyCode::Char(' ')) && ed.font.is_some() ==> ed.smush_selected < SMUSH_RULE_COUNT)
}

/// What a key does in the smushing-rule editor.
pub open spec fn smush_key_post(pre: FontEditor, post: FontEditor, code: KeyCode, used: bool) -> bool {
    let sel = pre.smush_selected;
    let frame = post.all_codes == pre.all_codes && post.selected_index == pre.selected_index && post.error_message == pre.error_message
        && search_same(pre, post) && stacks_same(pre, post) && header_prompt_same(pre, post) && code_prompt_same(pre, post)
        && transform_prompt_same(pre, post) && pre.current_path == post.current_path;
    match code {
        KeyCode::Up => used && frame && post.view == pre.view && post.font == pre.font && post.smush_selected == (if sel > 0 { (sel - 1) as usize } else { (SMUSH_RULE_COUNT - 1) as usize }),
        KeyCode::Down => used && frame && post.view == pre.view && post.font == pre.font && post.smush_selected == (sel + 1) % (SMUSH_RULE_COUNT as int),
        KeyCode::Enter | KeyCode::Char(' ') => used && frame && post.view == pre.view && post.smush_selected == sel && post.font == (match pre.font {
            None => None,
            Some(f) => Some(FIGfont { full_layout: f.full_layout ^ (smush_rule_bit(sel as int) as i32), ..f }),
        }),
        KeyCode::Esc => used && frame && post.view == FontEditorView::Overview && post.font == pre.font && post.smush_selected == sel,
        _ => !used && post == pre,
    }
}

/// Everything but the transform editor's prompt, the font and the message
/// agrees.
pub open spec fn transform_frame(pre: FontEditor, post: FontEditor) -> bool {
    &&& post.view == pre.view && post.selected_index == pre.selected_index
    &&& search_same(pre, post) && stacks_same(pre, post) && header_prompt_same(pre, post)
    &&& pre.smush_selected == post.smush_selected && code_prompt_same(pre, post) && pre.current_path == post.current_path
}

/// What Enter does to the open transform prompt, before the prompt closes.
pub open spec fn transform_enter_post(pre: FontEditor, post: FontEditor) -> bool {
    let buf = trimmed(pre.input_buffer@);
    &&& transform_frame(pre, post)
    &&& post.selected_transform == pre.selected_transform
    &&& post.transform_submode == pre.transform_submode
    &&& (if pre.selected_transform == 0 {
        &&& post.font_storage_name == pre.font_storage_name && post.transform_font_name == pre.transform_font_name
        &&& post.glyph_request == pre.glyph_request
        &&& match parsed_u32(buf) {
            Some(h) => if h == 0 {
                post.error_message@ == "Height must be \u{2265} 1"@ && post.font == pre.font && post.all_codes == pre.all_codes
            } else {
                resize_post(pre, post, h)
            },
            None => post.error_message@ == "Invalid height"@ && post.font == pre.font && post.all_codes == pre.all_codes,
        }
    } else if pre.selected_transform == 4 {
        &&& post.font == pre.font && post.all_codes == pre.all_codes && post.font_storage_name == pre.font_storage_name
        &&& if pre.sub_step == 0 {
            if buf.len() == 0 {
                post.error_message@ == "Font name required"@ && post.transform_font_name == pre.transform_font_name && post.glyph_request == pre.glyph_request
            } else {
                post.transform_font_name@ == buf && post.error_message@.len() == 0 && post.glyph_request == pre.glyph_request
            }
        } else {
            &&& post.transform_font_name == pre.transform_font_name
            &&& match parsed_u32(buf) {
                Some(c) => post.glyph_request is Some && post.glyph_request.unwrap().0@ == pre.transform_font_name@ && post.glyph_request.unwrap().1 == c && post.error_message == pre.error_message,
                None => post.error_message@ == "Invalid code point"@ && post.glyph_request == pre.glyph_request,
            }
        }
    } else if pre.selected_transform == 5 {
        &&& post.font == pre.font && post.all_codes == pre.all_codes && post.transform_font_name == pre.transform_font_name
        &&& post.glyph_request == pre.glyph_request
        &&& if buf.len() == 0 {
            post.error_message@ == "Name cannot be empty"@ && post.font_storage_name == pre.font_storage_name
        } else {
            post.font_storage_name@ == buf && post.error_message == pre.error_message
        }
    } else {
        &&& post.font == pre.font && post.all_codes == pre.all_codes && post.error_message == pre.error_message
        &&& post.font_storage_name == pre.font_storage_name && post.transform_font_name == pre.transform_font_name
        &&& post.glyph_request == pre.glyph_request
    })
}

/// The first step of copying a glyph took the font name: the prompt stays
/// open, empty, for the code.
pub open spec fn copy_name_taken(pre: FontEditor) -> bool {
    pre.selected_transform == 4 && pre.sub_step == 0 && trimmed(pre.input_buffer@).len() > 0
}

/// The transform prompt opened, empty, with no message.
pub open spec fn transform_prompt_opened(pre: FontEditor, post: FontEditor) -> bool {
    &&& post.input_active && post.input_buffer@.len() == 0 && post.error_message@.len() == 0
    &&& post.font == pre.font && post.all_codes == pre.all_codes && transform_frame(pre, post)
    &&& post.selected_transform == pre.selected_transform && post.transform_submode == pre.transform_submode
    &&& post.transform_font_name == pre.transform_font_name && post.font_storage_name == pre.font_storage_name
    &&& post.glyph_request == pre.glyph_request
}

/// What a key does in the transform editor.
pub open spec fn transform_key_post(pre: FontEditor, post: FontEditor, code: KeyCode, used: bool) -> bool {
    let same_prompt_state = post.selected_transform == pre.selected_transform && post.transform_submode == pre.transform_submode
        && post.transform_font_name == pre.transform_font_name && post.font_storage_name == pre.font_storage_name
        && post.glyph_request == pre.glyph_request;
    if pre.input_active {
        match code {
            KeyCode::Char(c) => if !crate::keys::is_control_char(c) {
                used && post.input_buffer@ == pre.input_buffer@.push(c) && post.input_active && post.sub_step == pre.sub_step && core_same(pre, post) && transform_frame(pre, post) && same_prompt_state
            } else {
                !used && post == pre
            },
            KeyCode::Backspace => used && post.input_buffer@ == popped(pre.input_buffer@) && post.input_active && post.sub_step == pre.sub_step && core_same(pre, post) && transform_frame(pre, post) && same_prompt_state,
            KeyCode::Esc => used && !post.input_active && post.input_buffer@.len() == 0 && post.sub_step == 0 && post.error_message@.len() == 0 && post.font == pre.font && post.all_codes == pre.all_codes && transform_frame(pre, post) && same_prompt_state,
            KeyCode::Enter => used && transform_enter_post(pre, post) && if copy_name_taken(pre) {
                post.input_active && post.sub_step == 1 && post.input_buffer@.len() == 0
            } else {
                !post.input_active && post.sub_step == 0 && post.input_buffer@.len() == 0
            },
            _ => !used && post == pre,
        }
    } else if pre.transform_submode is Some {
        let m = pre.transform_submode.unwrap();
        let keep = post.input_active == pre.input_active && post.input_buffer == pre.input_buffer && post.sub_step == pre.sub_step
            && post.selected_transform == pre.selected_transform && post.transform_font_name == pre.transform_font_name
            && post.font_storage_name == pre.font_storage_name && post.glyph_request == pre.glyph_request && transform_frame(pre, post);
        match code {
            KeyCode::Up => used && keep && core_same(pre, post) && post.transform_submode == Some(m.spec_prev()),
            KeyCode::Down => used && keep && core_same(pre, post) && post.transform_submode == Some(m.spec_next()),
            KeyCode::Enter => used && keep && mirror_post(pre, post, m) && post.transform_submode.is_none(),
            KeyCode::Esc => used && keep && core_same(pre, post) && post.transform_submode.is_none(),
            _ => !used && post == pre,
        }
    } else {
        let sel = pre.selected_transform;
        let keep_prompt = post.input_active == pre.input_active && post.input_buffer == pre.input_buffer && post.sub_step == pre.sub_step
            && post.transform_submode == pre.transform_submode && post.transform_font_name == pre.transform_font_name
            && post.font_storage_name == pre.font_storage_name && post.glyph_request == pre.glyph_request;
        match code {
            KeyCode::Up => used && keep_prompt && transform_frame(pre, post) && post.font == pre.font && post.all_codes == pre.all_codes && post.error_message@.len() == 0 && post.selected_transform == (if sel > 0 { (sel - 1) as usize } else { (TRANSFORM_COUNT - 1) as usize }),
            KeyCode::Down => used && keep_prompt && transform_frame(pre, post) && post.font == pre.font && post.all_codes == pre.all_codes && post.error_message@.len() == 0 && post.selected_transform == (sel + 1) % (TRANSFORM_COUNT as int),
            KeyCode::Enter => used && if sel == 0 || sel == 5 {
                transform_prompt_opened(pre, post) && post.sub_step == pre.sub_step
            } else if sel == 4 {
                transform_prompt_opened(pre, post) && post.sub_step == 0
            } else if sel == 1 {
                italicize_post(pre, post) && ui_same(pre, post)
            } else if sel == 2 {
                bold_post(pre, post) && ui_same(pre, post)
            } else if sel == 3 {
                post.transform_submode == Some(MirrorMode::Horizontal) && post.error_message@.len() == 0 && post.font == pre.font && post.all_codes == pre.all_codes
                    && transform_frame(pre, post) && post.selected_transform == sel && post.input_active == pre.input_active && post.input_buffer == pre.input_buffer
                    && post.sub_step == pre.sub_step && post.transform_font_name == pre.transform_font_name && post.font_storage_name == pre.font_storage_name
                    && post.glyph_request == pre.glyph_request
            } else {
                post == pre
            },
            KeyCode::Esc => used && post.view == FontEditorView::Overview && post.error_message@.len() == 0 && post.font == pre.font && post.all_codes == pre.all_codes && post.selected_index == pre.selected_index && ui_same(pre, post),
            _ => !used && post == pre,
        }
    }
}

/// The transform keys are safe: the selection can move down.
pub open spec fn transform_key_ok(ed: FontEditor, code: KeyCode) -> bool {
    !ed.input_active && ed.transform_submode is None && code == KeyCode::Down ==> ed.selected_transform < usize::MAX
}

/// What a key does in the character editor.
pub open spec fn char_editor_key_post(pre: FontEditor, post: FontEditor, code: KeyCode, modifiers: KeyModifiers, used: bool) -> bool {
    let ctrl = modifiers.spec_contains(KeyModifiers { bits: MOD_CONTROL });
    if code == KeyCode::Esc {
        used && post.view == FontEditorView::Overview && post.font == pre.font && post.all_codes == pre.all_codes && post.selected_index == pre.selected_index && post.error_message == pre.error_message && ui_same(pre, post)
    } else if code == KeyCode::Char('z') && ctrl {
        undo_post(pre, post, used)
    } else if code == KeyCode::Char('y') && ctrl {
        redo_post(pre, post, used)
    } else {
        !used && post == pre
    }
}

/// The keys of the current screen are safe.
pub open spec fn font_key_ok(ed: FontEditor, code: KeyCode, area_width: u16) -> bool {
    match ed.view {
        FontEditorView::Overview => overview_key_ok(ed, code, area_width),
        FontEditorView::SmushRuleEditor => smush_key_ok(ed, code),
        FontEditorView::TransformEditor => transform_key_ok(ed, code),
        _ => true,
    }
}

/// What a key does on the current screen.
pub open spec fn font_key_post(pre: FontEditor, post: FontEditor, code: KeyCode, modifiers: KeyModifiers, area_width: u16, used: bool) -> bool {
    match pre.view {
        FontEditorView::Overview => overview_key_post(pre, post, code, area_width, used),
        FontEditorView::CharEditor(_) => char_editor_key_post(pre, post, code, modifiers, used),
        FontEditorView::HeaderEditor => header_key_post(pre, post, code, used),
        FontEditorView::SmushRuleEditor => smush_key_post(pre, post, code, used),
        FontEditorView::TransformEditor => transform_key_post(pre, post, code, used),
    }
}

impl FontEditor {
    /// A key on the current screen: see `font_key_post`. Returns whether the
    /// editor used it.
    pub fn handle_key(&mut self, code: KeyCode, modifiers: KeyModifiers, area_width: u16) -> (used: bool)
        requires
            font_key_ok(*old(self), code, area_width),
        ensures
            font_key_post(*old(self), *final(self), code, modifiers, area_width, used),
    {
        match self.view {
            FontEditorView::Overview => self.handle_key_overview(code, area_width),
            FontEditorView::CharEditor(_) => self.handle_key_char_editor(code, modifiers),
            FontEditorView::HeaderEditor => self.handle_key_header_editor(code),
            FontEditorView::SmushRuleEditor => self.handle_key_smush_editor(code),
            FontEditorView::TransformEditor => self.handle_key_transform_editor(code),
        }
    }

    /// A key in the character editor: see `char_editor_key_post`.
    pub fn handle_key_char_editor(&mut self, code: KeyCode, modifiers: KeyModifiers) -> (used: bool)
        ensures
            char_editor_key_post(*old(self), *final(self), code, modifiers, used),
    {
        let ctrl = modifiers.contains(KeyModifiers { bits: MOD_CONTROL });
        match code {
            KeyCode::Esc => {
                self.view = FontEditorView::Overview;
                true
            },
            KeyCode::Char(c) => {
                if c == 'z' && ctrl {
                    self.undo_char()
                } else if c == 'y' && ctrl {
                    self.redo_char()
                } else {
                    false
                }
            },
            _ => false,
        }
    }

    /// A key in the header editor: see `header_key_post`.
    pub fn handle_key_header_editor(&mut self, code: KeyCode) -> (used: bool)
        ensures
            header_key_post(*old(self), *final(self), code, used),
    {
        if self.editing_field {
            match code {
                KeyCode::Enter => {
                    self.error_message = String::new();
                    if self.save_current_field() {
                        self.editing_field = false;
                    }
                    true
                },
                KeyCode::Esc => {
                    self.editing_field = false;
                    self.edit_buffer = String::new();
                    self.error_message = String::new();
                    true
                },
                KeyCode::Char(c) => {
                    if !is_control(c) {
                        push_char(&mut self.edit_buffer, c);
                        self.error_message = String::new();
                        true
                    } else {
                        false
                    }
                },
                KeyCode::Backspace => {
                    pop_char(&mut self.edit_buffer);
                    self.error_message = String::new();
                    true
                },
                _ => false,
            }
        } else {
            match code {
                KeyCode::Up => {
                    if self.selected_field > 0 {
                        self.selected_field = self.selected_field - 1;
                    }
                    self.error_message = String::new();
                    true
                },
                KeyCode::Down => {
                    if self.selected_field < 6 {
                        self.selected_field = self.selected_field + 1;
                    }
                    self.error_message = String::new();
                    true
                },
                KeyCode::Enter => {
                    self.start_editing_field();
                    true
                },
                KeyCode::Esc => {
                    self.view = FontEditorView::Overview;
                    self.error_message = String::new();
                    true
                },
                _ => false,
            }
        }
    }

    /// A key in the smushing-rule editor: see `smush_key_post`.
    pub fn handle_key_smush_editor(&mut self, code: KeyCode) -> (used: bool)
        requires
            smush_key_ok(*old(self), code),
        ensures
            smush_key_post(*old(self), *final(self), code, used),
    {
        match code {
            KeyCode::Up => {
                if self.smush_selected > 0 {
                    self.smush_selected = self.smush_selected - 1;
                } else {
                    self.smush_selected = SMUSH_RULE_COUNT - 1;
                }
                true
            },
            KeyCode::Down => {
                self.smush_selected = (self.smush_selected + 1) % SMUSH_RULE_COUNT;
                true
            },
            KeyCode::Enter | KeyCode::Char(' ') => {
                let sel = self.smush_selected;
                match &mut self.font {
                    None => {},
                    Some(font) => {
                        let bit = smush_bit(sel);
                        font.full_layout = font.full_layout ^ (bit as i32);
                    },
                }
                true
            },
            KeyCode::Esc => {
                self.view = FontEditorView::Overview;
                true
            },
            _ => false,
        }
    }

    /// A key in the transform editor: see `transform_key_post`.
    pub fn handle_key_transform_editor(&mut self, code: KeyCode) -> (used: bool)
        requires
            transform_key_ok(*old(self), code),
        ensures
            transform_key_post(*old(self), *final(self), code, used),
    {
        if self.input_active {
            match code {
                KeyCode::Char(c) => {
                    if !is_control(c) {
                        push_char(&mut self.input_buffer, c);
                        true
                    } else {
                        false
                    }
                },
                KeyCode::Backspace => {
                    pop_char(&mut self.input_buffer);
                    true
                },
                KeyCode::Esc => {
                    self.input_active = false;
                    self.input_buffer = String::new();
                    self.sub_step = 0;
                    self.error_message = String::new();
                    true
                },
                KeyCode::Enter => {
                    let buf = trim(self.input_buffer.as_str());
                    if self.selected_transform == 0 {
                        match parse_u32(buf.as_str()) {
                            Some(h) => {
                                if h == 0 {
                                    self.error_message = copy_string("Height must be \u{2265} 1");
                                } else {
                                    self.transform_resize(h);
                                }
                            },
                            None => {
                                self.error_message = copy_string("Invalid height");
                            },
                        }
                    } else if self.selected_transform == 4 {
                        if self.sub_step == 0 {
                            if buf.unicode_len() == 0 {
                                self.error_message = copy_string("Font name required");
                            } else {
                                self.transform_font_name = buf;
                                self.sub_step = 1;
                                self.input_buffer = String::new();
                                self.error_message = String::new();
                                return true;
                            }
                        } else {
                            match parse_u32(buf.as_str()) {
                                Some(c) => {
                                    let name = copy_string(self.transform_font_name.as_str());
                                    self.glyph_request = Some((name, c));
                                },
                                None => {
                                    self.error_message = copy_string("Invalid code point");
                                },
                            }
                        }
                    } else if self.selected_transform == 5 {
                        if buf.unicode_len() == 0 {
                            self.error_message = copy_string("Name cannot be empty");
                        } else {
                            self.transform_rename(buf.as_str());
                        }
                    }
                    self.input_active = false;
                    self.input_buffer = String::new();
                    self.sub_step = 0;
                    true
                },
                _ => false,
            }
        } else if let Some(current) = self.transform_submode {
            match code {
                KeyCode::Up => {
                    self.transform_submode = Some(current.prev());
                    true
                },
                KeyCode::Down => {
                    self.transform_submode = Some(current.next());
                    true
                },
                KeyCode::Enter => {
                    self.transform_mirror(current);
                    self.transform_submode = None;
                    true
                },
                KeyCode::Esc => {
                    self.transform_submode = None;
                    true
                },
                _ => false,
            }
        } else {
            match code {
                KeyCode::Up => {
                    self.selected_transform = if self.selected_transform > 0 {
                        self.selected_transform - 1
                    } else {
                        TRANSFORM_COUNT - 1
                    };
                    self.error_message = String::new();
                    true
                },
                KeyCode::Down => {
                    self.selected_transform = (self.selected_transform + 1) % TRANSFORM_COUNT;
                    self.error_message = String::new();
                    true
                },
                KeyCode::Enter => {
                    let sel = self.selected_transform;
                    if sel == 0 || sel == 5 {
                        self.input_active = true;
                        self.input_buffer = String::new();
                        self.error_message = String::new();
                    } else if sel == 1 {
                        self.transform_italicize();
                    } else if sel == 2 {
                        self.transform_bold();
                    } else if sel == 3 {
                        self.transform_submode = Some(MirrorMode::Horizontal);
                        self.error_message = String::new();
                    } else if sel == 4 {
                        self.input_active = true;
                        self.input_buffer = String::new();
                        self.sub_step = 0;
                        self.error_message = String::new();
                    }
                    true
                },
                KeyCode::Esc => {
                    self.view = FontEditorView::Overview;
                    self.error_message = String::new();
                    true
                },
                _ => false,
            }
        }
    }
}

impl Default for FontEditor {
    fn default() -> (ed: FontEditor)
        ensures
            ed.font.is_none(),
            ed.view == FontEditorView::Overview,
            codes_in_sync(&ed),
    {
        FontEditor::new()
    }
}


/// Moving to the previous mirror mode undoes moving to the next one and
/// back, and three moves forward come back to the start.
pub proof fn law_mirror_mode_cycle(m: MirrorMode)
    ensures
        m.spec_next().spec_prev() == m,
        m.spec_prev().spec_next() == m,
        m.spec_next().spec_next().spec_next() == m,
{
}


proof fn lemma_to_set_drop_first(s: Seq<u32>)
    requires
        s.len() > 0,
        strictly_increasing(s),
    ensures
        s.drop_first().to_set() == s.to_set().remove(s[0]),
{
    let t = s.drop_first();
    assert forall|x: u32| #[trigger] t.to_set().contains(x) == s.to_set().remove(s[0]).contains(x) by {
        if t.to_set().contains(x) {
            let k = choose|k: int| 0 <= k < t.len() && t[k] == x;
            assert(s[k + 1] == x);
            assert(s.contains(x));
        }
        if s.to_set().remove(s[0]).contains(x) {
            let k = choose|k: int| 0 <= k < s.len() && s[k] == x;
            assert(k != 0);
            assert(t[k - 1] == x);
            assert(t.contains(x));
        }
    }
    assert(t.to_set() =~= s.to_set().remove(s[0]));
}

/// Two increasing lists of the same codes are the same list.
proof fn lemma_sorted_codes_unique(a: Seq<u32>, b: Seq<u32>, d: Set<u32>)
    requires
        sorted_codes(a, d),
        sorted_codes(b, d),
    ensures
        a == b,
    decreases a.len(),
{
    if a.len() == 0 {
        if b.len() > 0 {
            assert(b.contains(b[0]));
            assert(d.contains(b[0]));
            assert(a.to_set().contains(b[0]));
        }
        assert(a =~= b);
    } else {
        assert(a.contains(a[0]));
        assert(b.to_set().contains(a[0]));
        assert(b.len() > 0);
        let j = choose|j: int| 0 <= j < b.len() && b[j] == a[0];
        assert(b.contains(b[0]));
        assert(a.to_set().contains(b[0]));
        let k = choose|k: int| 0 <= k < a.len() && a[k] == b[0];
        if j > 0 {
            assert(b[0] < b[j]);
        }
        if k > 0 {
            assert(a[0] < a[k]);
        }
        assert(a[0] == b[0]);
        lemma_to_set_drop_first(a);
        lemma_to_set_drop_first(b);
        lemma_sorted_codes_unique(a.drop_first(), b.drop_first(), d.remove(a[0]));
        assert(a =~= seq![a[0]] + a.drop_first());
        assert(b =~= seq![b[0]] + b.drop_first());
    }
}

/// Mirroring a glyph twice the same way gives it back.
pub proof fn law_mirror_twice(rows: Seq<Seq<char>>, mode: MirrorMode)
    ensures
        mirrored_rows(mirrored_rows(rows, mode), mode) == rows,
{
    let m = mirrored_rows(rows, mode);
    let mm = mirrored_rows(m, mode);
    assert forall|i: int| 0 <= i < rows.len() implies #[trigger] mm[i] == rows[i] by {
        match mode {
            MirrorMode::Horizontal => {
                assert(reversed(reversed(rows[i])) =~= rows[i]);
            },
            MirrorMode::Vertical => {},
            MirrorMode::Both => {
                assert(reversed(m)[i] == m[rows.len() - 1 - i]);
                assert(m[rows.len() - 1 - i] == reversed(reversed(rows)[rows.len() - 1 - i]));
                assert(reversed(rows)[rows.len() - 1 - i] == rows[i]);
                assert(reversed(reversed(rows[i])) =~= rows[i]);
            },
        }
    }
    assert(mm =~= rows);
}

/// Mirroring a whole font twice the same way gives back its glyphs.
pub proof fn law_mirror_font_twice(f: FIGfont, g: FIGfont, h: FIGfont, mode: MirrorMode)
    requires
        transformed_font(g, f, GlyphOp::Mirror(mode)),
        transformed_font(h, g, GlyphOp::Mirror(mode)),
    ensures
        glyphs(h.chars@) == glyphs(f.chars@),
{
    assert forall|k: u32| #[trigger] h.chars@.contains_key(k) implies h.chars@[k]@ == f.chars@[k]@ by {
        law_mirror_twice(f.chars@[k]@, mode);
    }
    assert(glyphs(h.chars@) =~= glyphs(f.chars@));
}

/// Every row of a bold glyph is twice as long as before, so of even
/// length.
pub proof fn law_bold_rows_even(rows: Seq<Seq<char>>)
    ensures
        bold_rows(rows).len() == rows.len(),
        forall|i: int| 0 <= i < rows.len() ==> #[trigger] bold_rows(rows)[i].len() == 2 * rows[i].len()
            && bold_rows(rows)[i].len() % 2 == 0,
{
}

/// Every editing operation keeps the list of codes in step with the font:
/// all its codes, each once, in increasing order.
pub proof fn law_codes_stay_in_sync(pre: FontEditor, post: FontEditor, code: u32, src: u32, height: u32, mode: MirrorMode, done: bool)
    requires
        codes_in_sync(&pre),
    ensures
        add_char_post(pre, post, code) ==> codes_in_sync(&post),
        delete_char_post(pre, post, code) ==> codes_in_sync(&post),
        copy_char_post(pre, post, src, code) ==> codes_in_sync(&post),
        resize_post(pre, post, height) ==> codes_in_sync(&post),
        italicize_post(pre, post) ==> codes_in_sync(&post),
        bold_post(pre, post) ==> codes_in_sync(&post),
        mirror_post(pre, post, mode) ==> codes_in_sync(&post),
        undo_post(pre, post, done) ==> codes_in_sync(&post),
        redo_post(pre, post, done) ==> codes_in_sync(&post),
{
    if undo_post(pre, post, done) && done {
        let c = pre.view->CharEditor_0;
        assert(pre.font.unwrap().chars@.dom().insert(c) =~= pre.font.unwrap().chars@.dom());
    }
    if redo_post(pre, post, done) && done {
        let c = pre.view->CharEditor_0;
        assert(pre.font.unwrap().chars@.dom().insert(c) =~= pre.font.unwrap().chars@.dom());
    }
}

/// Adding a glyph for a new code and deleting it again leaves the font's
/// header, glyphs and list of codes as they were (for a font that has its
/// glyph for code 0, which deleting would otherwise supply).
pub proof fn law_delete_undoes_add(a: FontEditor, b: FontEditor, c: FontEditor, code: u32)
    requires
        codes_in_sync(&a),
        a.font is Some,
        valid_code(code),
        !a.font.unwrap().chars@.contains_key(code),
        a.font.unwrap().chars@.contains_key(0),
        add_char_post(a, b, code),
        delete_char_post(b, c, code),
    ensures
        c.font is Some,
        same_header(c.font.unwrap(), a.font.unwrap()),
        glyphs(c.font.unwrap().chars@) == glyphs(a.font.unwrap().chars@),
        c.all_codes@ == a.all_codes@,
{
    let f = a.font.unwrap();
    let g = b.font.unwrap();
    assert(g.chars@.contains_key(code));
    let rest = glyphs(g.chars@).remove(code);
    assert(rest =~= glyphs(f.chars@));
    assert(rest.contains_key(0));
    let h = c.font.unwrap();
    assert(h.chars@.dom() =~= glyphs(h.chars@).dom());
    assert(h.chars@.dom() =~= f.chars@.dom());
    lemma_sorted_codes_unique(c.all_codes@, a.all_codes@, f.chars@.dom());
}

/// Redo right after a successful undo succeeds and restores the glyphs
/// and both history stacks.
pub proof fn law_redo_undoes_undo(a: FontEditor, b: FontEditor, c: FontEditor, done: bool)
    requires
        undo_post(a, b, true),
        redo_post(b, c, done),
    ensures
        done,
        same_header(c.font.unwrap(), a.font.unwrap()),
        glyphs(c.font.unwrap().chars@) == glyphs(a.font.unwrap().chars@),
        stack_view(c.undo_stack@) == stack_view(a.undo_stack@),
        stack_view(c.redo_stack@) == stack_view(a.redo_stack@),
{
    let code = a.view->CharEditor_0;
    let f = a.font.unwrap();
    let g = b.font.unwrap();
    assert(g.chars@.dom().contains(code));
    assert(glyphs(g.chars@).contains_key(code));
    assert(stack_view(b.redo_stack@).len() > 0);
    assert(b.redo_stack@.len() > 0);
    let h = c.font.unwrap();
    assert(glyphs(g.chars@)[code] == g.chars@[code]@);
    assert(glyphs(h.chars@) =~= glyphs(f.chars@));
    assert(stack_view(c.undo_stack@) =~= stack_view(a.undo_stack@));
    assert(stack_view(c.redo_stack@) =~= stack_view(a.redo_stack@));
}

/// Undo right after a successful redo succeeds and restores the glyphs
/// and both history stacks.
pub proof fn law_undo_undoes_redo(a: FontEditor, b: FontEditor, c: FontEditor, done: bool)
    requires
        redo_post(a, b, true),
        undo_post(b, c, done),
    ensures
        done,
        same_header(c.font.unwrap(), a.font.unwrap()),
        glyphs(c.font.unwrap().chars@) == glyphs(a.font.unwrap().chars@),
        stack_view(c.undo_stack@) == stack_view(a.undo_stack@),
        stack_view(c.redo_stack@) == stack_view(a.redo_stack@),
{
    let code = a.view->CharEditor_0;
    let f = a.font.unwrap();
    let g = b.font.unwrap();
    assert(g.chars@.dom().contains(code));
    assert(glyphs(g.chars@).contains_key(code));
    assert(stack_view(b.undo_stack@).len() > 0);
    assert(b.undo_stack@.len() > 0);
    let h = c.font.unwrap();
    assert(glyphs(g.chars@)[code] == g.chars@[code]@);
    assert(glyphs(h.chars@) =~= glyphs(f.chars@));
    assert(stack_view(c.undo_stack@) =~= stack_view(a.undo_stack@));
    assert(stack_view(c.redo_stack@) =~= stack_view(a.redo_stack@));
}


/// Taking a canvas that differs from the edited glyph, and then pressing
/// Ctrl+Z in the character editor, gives the glyph its previous rows back:
/// the sync stores the canvas rows and empties the redo stack, and the undo
/// succeeds and restores the font's glyphs and header.
pub proof fn law_undo_after_sync(a: FontEditor, b: FontEditor, c: FontEditor, code: u32, g: crate::canvas::GridModel, modifiers: KeyModifiers, used: bool)
    requires
        a.font is Some,
        a.font.unwrap().chars@.contains_key(code),
        a.view == FontEditorView::CharEditor(code),
        a.font.unwrap().chars@[code]@ != canvas_rows(g),
        canvas_synced(a, b, code, g),
        modifiers.spec_contains(KeyModifiers { bits: MOD_CONTROL }),
        char_editor_key_post(b, c, KeyCode::Char('z'), modifiers, used),
    ensures
        b.font.unwrap().chars@[code]@ == canvas_rows(g),
        b.redo_stack@.len() == 0,
        used,
        same_header(c.font.unwrap(), a.font.unwrap()),
        glyphs(c.font.unwrap().chars@) == glyphs(a.font.unwrap().chars@),
        c.font.unwrap().chars@[code]@ == a.font.unwrap().chars@[code]@,
{
    let f = a.font.unwrap();
    let m = b.font.unwrap();
    let prev = f.chars@[code]@;
    assert(glyphs(m.chars@).contains_key(code));
    assert(glyphs(m.chars@)[code] == m.chars@[code]@);
    assert(stack_view(b.undo_stack@).len() > 0);
    assert(stack_view(b.undo_stack@).last() == prev);
    assert(b.undo_stack@.len() > 0);
    let h = c.font.unwrap();
    assert(glyphs(h.chars@) =~= glyphs(f.chars@));
    assert(glyphs(h.chars@)[code] == h.chars@[code]@);
}

/// Taking a canvas that already equals the edited glyph changes nothing in
/// the editor.
pub proof fn law_sync_same_canvas_keeps_editor(a: FontEditor, b: FontEditor, code: u32, g: crate::canvas::GridModel)
    requires
        a.font is Some,
        a.font.unwrap().chars@.contains_key(code),
        a.font.unwrap().chars@[code]@ == canvas_rows(g),
        canvas_synced(a, b, code, g),
    ensures
        b == a,
{
}
} // verus!
