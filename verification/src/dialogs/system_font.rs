use vstd::prelude::*;

use crate::browse::{compare_strings, lex_le, lex_lt};
use crate::dialogs::font_import_options::cycled_charset;
use crate::dialogs::new_image::byte_len;
use crate::font_editor::popped;
use crate::keys::{is_ascii_digit, is_digit_char, KeyCode};
use crate::text::{contains_str, contains_text, copy_string, lowercase, pop_char, push_char, push_str, strings_view, to_lowercase};

verus! {

/// How many character sets the font dialogs offer.
pub const CHARSET_COUNT: usize = 12;

/// The name of character set `i`, as the font generator knows it.
pub open spec fn charset_of(i: int) -> Seq<char> {
    if i == 0 {
        "default"@
    } else if i == 1 {
        "slight"@
    } else if i == 2 {
        "smooth"@
    } else if i == 3 {
        "block"@
    } else if i == 4 {
        "blocks"@
    } else if i == 5 {
        "box"@
    } else if i == 6 {
        "braille"@
    } else if i == 7 {
        "ogham"@
    } else if i == 8 {
        "dithered"@
    } else if i == 9 {
        "geometric"@
    } else if i == 10 {
        "deluxe"@
    } else {
        "full"@
    }
}

/// The name of character set `i`.
pub fn charset_name(i: usize) -> (r: &'static str)
    requires
        i < CHARSET_COUNT,
    ensures
        r@ == charset_of(i as int),
{
    if i == 0 {
        "default"
    } else if i == 1 {
        "slight"
    } else if i == 2 {
        "smooth"
    } else if i == 3 {
        "block"
    } else if i == 4 {
        "blocks"
    } else if i == 5 {
        "box"
    } else if i == 6 {
        "braille"
    } else if i == 7 {
        "ogham"
    } else if i == 8 {
        "dithered"
    } else if i == 9 {
        "geometric"
    } else if i == 10 {
        "deluxe"
    } else {
        "full"
    }
}

/// The fields of the system font picker.
#[derive(Debug, Clone, Copy, PartialEq, Eq, Structural)]
pub enum Field {
    List,
    Size,
    Charset,
}

/// The picker of an installed font family, with the glyph size and the
/// character set of the font made from it. Whether the typed size is a
/// number from 4 to 200 is the caller's to tell (`size_ok`); the caller
/// keeps the size itself.
pub struct SystemFontPickerDialog {
    pub active: bool,
    pub families: Vec<String>,
    pub filter: String,
    pub selected: usize,
    pub size_buffer: String,
    pub charset_index: usize,
    pub selected_field: Field,
    pub error_message: String,
    pub confirmed: bool,
    pub result_family: String,
    pub result_charset: String,
}

/// The names ordered by their lower-case forms.
pub open spec fn sorted_by_lowercase(s: Seq<Seq<char>>) -> bool {
    forall|i: int, j: int| 0 <= i < j < s.len() ==> lex_le(lowercase(s[i]), lowercase(s[j]))
}

/// The positions, from `k` on, of the families whose lower-case name holds
/// `needle`.
pub open spec fn matching_from(families: Seq<Seq<char>>, needle: Seq<char>, k: int) -> Seq<usize>
    decreases families.len() - k,
{
    if k < 0 || k >= families.len() {
        Seq::empty()
    } else if contains_text(lowercase(families[k]), needle) {
        seq![k as usize] + matching_from(families, needle, k + 1)
    } else {
        matching_from(families, needle, k + 1)
    }
}

/// The positions of the families the filter shows: all of them for an
/// empty filter, else those whose lower-case name holds the lower-case
/// filter.
pub open spec fn shown_families(families: Seq<Seq<char>>, filter: Seq<char>) -> Seq<usize> {
    if filter.len() == 0 {
        Seq::new(families.len(), |i: int| i as usize)
    } else {
        matching_from(families, lowercase(filter), 0)
    }
}

/// What confirming does: without a shown family at the selection, or with
/// an invalid size, a message (and for the size its field); otherwise the
/// family and character set are recorded and the dialog closes.
pub open spec fn picker_confirm_post(pre: SystemFontPickerDialog, post: SystemFontPickerDialog, size_ok: bool) -> bool {
    let shown = shown_families(strings_view(pre.families@), pre.filter@);
    if pre.selected >= shown.len() {
        &&& post.error_message@ == "Select a font family"@
        &&& post == (SystemFontPickerDialog { error_message: post.error_message, ..pre })
    } else if !size_ok {
        &&& post.error_message@ == "Size must be 4-200"@
        &&& post == (SystemFontPickerDialog { error_message: post.error_message, selected_field: Field::Size, ..pre })
    } else {
        &&& post.result_family@ == pre.families@[shown[pre.selected as int] as int]@
        &&& post.result_charset@ == charset_of(pre.charset_index as int)
        &&& post == (SystemFontPickerDialog {
            result_family: post.result_family,
            result_charset: post.result_charset,
            confirmed: true,
            active: false,
            ..pre
        })
    }
}

/// What a key does: Tab moves through list, size and character set; in
/// the list Up and Down move the selection among the shown families and
/// characters other than digits extend the filter; in the size field
/// digits are typed (up to three bytes) and a single `.` is allowed; Left
/// and Right step the character set while it is selected; Backspace erases
/// in the list or the size; Enter confirms and Esc closes.
pub open spec fn picker_key_post(pre: SystemFontPickerDialog, post: SystemFontPickerDialog, code: KeyCode, size_ok: bool, used: bool) -> bool {
    let f = pre.selected_field;
    let count = shown_families(strings_view(pre.families@), pre.filter@).len();
    match code {
        KeyCode::Tab => used && post == (SystemFontPickerDialog {
            selected_field: match f {
                Field::List => Field::Size,
                Field::Size => Field::Charset,
                Field::Charset => Field::List,
            },
            ..pre
        }),
        KeyCode::Up => if f == Field::List {
            used && post == (SystemFontPickerDialog { selected: if pre.selected > 0 { (pre.selected - 1) as usize } else { 0 }, ..pre })
        } else {
            !used && post == pre
        },
        KeyCode::Down => if f == Field::List {
            used && post == (SystemFontPickerDialog { selected: if pre.selected + 1 < count { (pre.selected + 1) as usize } else { pre.selected }, ..pre })
        } else {
            !used && post == pre
        },
        KeyCode::Left => if f == Field::Charset {
            used && post == (SystemFontPickerDialog { charset_index: cycled_charset(pre.charset_index, false), ..pre })
        } else {
            !used && post == pre
        },
        KeyCode::Right => if f == Field::Charset {
            used && post == (SystemFontPickerDialog { charset_index: cycled_charset(pre.charset_index, true), ..pre })
        } else {
            !used && post == pre
        },
        KeyCode::Char(c) => if f == Field::List && !is_digit_char(c) {
            &&& used
            &&& post.filter@ == pre.filter@.push(c)
            &&& post.error_message@.len() == 0
            &&& post == (SystemFontPickerDialog { filter: post.filter, selected: 0, error_message: post.error_message, ..pre })
        } else if f == Field::Size && is_digit_char(c) {
            &&& used
            &&& post.size_buffer@ == (if (byte_len(pre.size_buffer@) as usize) < 3 { pre.size_buffer@.push(c) } else { pre.size_buffer@ })
            &&& post.error_message@.len() == 0
            &&& post == (SystemFontPickerDialog { size_buffer: post.size_buffer, error_message: post.error_message, ..pre })
        } else if f == Field::Size && c == '.' {
            &&& used
            &&& post.size_buffer@ == (if contains_text(pre.size_buffer@, "."@) { pre.size_buffer@ } else { pre.size_buffer@.push('.') })
            &&& post == (SystemFontPickerDialog { size_buffer: post.size_buffer, ..pre })
        } else {
            !used && post == pre
        },
        KeyCode::Backspace => {
            &&& used
            &&& post.error_message@.len() == 0
            &&& match f {
                Field::List => post.filter@ == popped(pre.filter@)
                    && post == (SystemFontPickerDialog { filter: post.filter, selected: 0, error_message: post.error_message, ..pre }),
                Field::Size => post.size_buffer@ == popped(pre.size_buffer@)
                    && post == (SystemFontPickerDialog { size_buffer: post.size_buffer, error_message: post.error_message, ..pre }),
                Field::Charset => post == (SystemFontPickerDialog { error_message: post.error_message, ..pre }),
            }
        },
        KeyCode::Enter => used && picker_confirm_post(pre, post, size_ok),
        KeyCode::Esc => used && post == (SystemFontPickerDialog { active: false, confirmed: false, ..pre }),
        _ => !used && post == pre,
    }
}

/// Insert `x`, whose lower-case form is `key`, after every name whose
/// lower-case form is not greater.
fn insert_by_key(keys: &mut Vec<String>, names: &mut Vec<String>, key: String, x: String)
    requires
        key@ == lowercase(x@),
        old(keys)@.len() == old(names)@.len(),
        forall|j: int| 0 <= j < old(names)@.len() ==> (#[trigger] old(keys)@[j])@ == lowercase(old(names)@[j]@),
        sorted_by_lowercase(strings_view(old(names)@)),
    ensures
        final(keys)@.len() == final(names)@.len(),
        forall|j: int| 0 <= j < final(names)@.len() ==> (#[trigger] final(keys)@[j])@ == lowercase(final(names)@[j]@),
        sorted_by_lowercase(strings_view(final(names)@)),
        strings_view(final(names)@).to_multiset() == strings_view(old(names)@).to_multiset().insert(x@),
{
    let ghost sv = strings_view(names@);
    let mut i: usize = 0;
    while i < keys.len() && compare_strings(keys[i].as_str(), key.as_str()) != 1
        invariant
            sv == strings_view(names@),
            keys@.len() == names@.len(),
            forall|j: int| 0 <= j < names@.len() ==> (#[trigger] keys@[j])@ == lowercase(names@[j]@),
            i <= keys@.len(),
            forall|j: int| 0 <= j < i ==> lex_le(lowercase(sv[j]), key@),
        decreases keys@.len() - i,
    {
        assert(sv[i as int] == names@[i as int]@);
        i = i + 1;
    }
    proof {
        if i < keys@.len() {
            assert(sv[i as int] == names@[i as int]@);
            assert(lex_lt(key@, lowercase(sv[i as int])));
        }
    }
    let ghost xv = x@;
    keys.insert(i, key);
    names.insert(i, x);
    proof {
        let nv = strings_view(names@);
        assert(nv =~= sv.insert(i as int, xv));
        assert forall|j: int| 0 <= j < names@.len() implies (#[trigger] keys@[j])@ == lowercase(names@[j]@) by {
            if j < i {
                assert(keys@[j] == old(keys)@[j]);
                assert(names@[j] == old(names)@[j]);
            } else if j > i {
                assert(keys@[j] == old(keys)@[j - 1]);
                assert(names@[j] == old(names)@[j - 1]);
            }
        }
        assert forall|a: int, b: int| 0 <= a < b < nv.len() implies lex_le(lowercase(nv[a]), lowercase(nv[b])) by {
            if b < i {
            } else if b == i {
            } else if a < i {
                assert(nv[b] == sv[b - 1]);
                assert(lex_le(lowercase(sv[a]), lowercase(xv)));
                assert(lex_lt(lowercase(xv), lowercase(sv[i as int])));
                if b - 1 > i {
                    assert(lex_le(lowercase(sv[i as int]), lowercase(sv[b - 1])));
                }
                crate::browse::lemma_lex_le_transitive(lowercase(sv[a]), lowercase(xv), lowercase(sv[i as int]));
                crate::browse::lemma_lex_le_transitive(lowercase(sv[a]), lowercase(sv[i as int]), lowercase(sv[b - 1]));
            } else if a == i {
                assert(lex_lt(lowercase(xv), lowercase(sv[i as int])));
                if b - 1 > i {
                    assert(lex_le(lowercase(sv[i as int]), lowercase(sv[b - 1])));
                    crate::browse::lemma_lex_le_transitive(lowercase(xv), lowercase(sv[i as int]), lowercase(sv[b - 1]));
                }
            } else {
                assert(nv[a] == sv[a - 1]);
                assert(nv[b] == sv[b - 1]);
            }
        }
        vstd::seq_lib::to_multiset_insert(sv, i as int, xv);
    }
}

/// The names ordered by their lower-case forms, names with the same form
/// kept in their order.
pub fn sort_by_lowercase(names: Vec<String>) -> (r: Vec<String>)
    ensures
        sorted_by_lowercase(strings_view(r@)),
        strings_view(r@).to_multiset() == strings_view(names@).to_multiset(),
{
    let mut keys: Vec<String> = Vec::new();
    let mut out: Vec<String> = Vec::new();
    let mut i: usize = 0;
    assert(strings_view(out@) =~= Seq::<Seq<char>>::empty());
    assert(strings_view(names@.take(0)) =~= Seq::<Seq<char>>::empty());
    while i < names.len()
        invariant
            i <= names@.len(),
            keys@.len() == out@.len(),
            forall|j: int| 0 <= j < out@.len() ==> (#[trigger] keys@[j])@ == lowercase(out@[j]@),
            sorted_by_lowercase(strings_view(out@)),
            strings_view(out@).to_multiset() == strings_view(names@.take(i as int)).to_multiset(),
        decreases names@.len() - i,
    {
        let name = copy_string(names[i].as_str());
        let key = to_lowercase(name.as_str());
        insert_by_key(&mut keys, &mut out, key, name);
        proof {
            assert(strings_view(names@.take(i + 1)) =~= strings_view(names@.take(i as int)).push(names@[i as int]@));
            vstd::seq_lib::to_multiset_build(strings_view(names@.take(i as int)), names@[i as int]@);
        }
        i = i + 1;
    }
    assert(names@.take(i as int) =~= names@);
    out
}

impl SystemFontPickerDialog {
    /// A closed picker with no families, size 12 and the `smooth` set.
    pub fn new() -> (d: SystemFontPickerDialog)
        ensures
            !d.active,
            d.families@.len() == 0,
            d.filter@.len() == 0,
            d.selected == 0,
            d.size_buffer@ == "12"@,
            d.charset_index == 2,
            d.selected_field == Field::List,
            d.error_message@.len() == 0,
            !d.confirmed,
            d.result_family@.len() == 0,
            d.result_charset@ == charset_of(2),
    {
        SystemFontPickerDialog {
            active: false,
            families: Vec::new(),
            filter: String::new(),
            selected: 0,
            size_buffer: copy_string("12"),
            charset_index: 2,
            selected_field: Field::List,
            error_message: String::new(),
            confirmed: false,
            result_family: String::new(),
            result_charset: copy_string(charset_name(2)),
        }
    }

    /// Open the picker with the defaults on the installed families as
    /// listed (`Ok`, ordered by their lower-case names here), or with none
    /// and the reason they could not be listed (`Err`).
    pub fn enter(&mut self, listed: Result<Vec<String>, String>)
        ensures
            final(self).active,
            final(self).filter@.len() == 0,
            final(self).selected == 0,
            final(self).size_buffer@ == "12"@,
            final(self).charset_index == 2,
            final(self).selected_field == Field::List,
            !final(self).confirmed,
            final(self).result_family == old(self).result_family,
            final(self).result_charset == old(self).result_charset,
            match listed {
                Ok(names) => {
                    &&& final(self).error_message@.len() == 0
                    &&& sorted_by_lowercase(strings_view(final(self).families@))
                    &&& strings_view(final(self).families@).to_multiset() == strings_view(names@).to_multiset()
                },
                Err(e) => final(self).families@.len() == 0 && final(self).error_message@ == "Could not list system fonts: "@ + e@,
            },
    {
        self.active = true;
        self.filter = String::new();
        self.selected = 0;
        self.size_buffer = copy_string("12");
        self.charset_index = 2;
        self.selected_field = Field::List;
        self.error_message = String::new();
        self.confirmed = false;
        match listed {
            Ok(names) => {
                self.families = sort_by_lowercase(names);
            },
            Err(e) => {
                self.families = Vec::new();
                let mut m = copy_string("Could not list system fonts: ");
                push_str(&mut m, e.as_str());
                self.error_message = m;
            },
        }
    }

    /// Step the character set forward or back, wrapping around.
    pub fn cycle_charset(&mut self, forward: bool)
        requires
            old(self).charset_index + CHARSET_COUNT <= usize::MAX,
        ensures
            *final(self) == (SystemFontPickerDialog { charset_index: cycled_charset(old(self).charset_index, forward), ..*old(self) }),
    {
        self.charset_index = if forward {
            (self.charset_index + 1) % CHARSET_COUNT
        } else {
            (self.charset_index + CHARSET_COUNT - 1) % CHARSET_COUNT
        };
    }

    /// Close the picker without confirming.
    pub fn close(&mut self)
        ensures
            *final(self) == (SystemFontPickerDialog { active: false, confirmed: false, ..*old(self) }),
    {
        self.active = false;
        self.confirmed = false;
    }

    /// The positions of the families the filter shows: see
    /// `shown_families`.
    pub fn filtered_indices(&self) -> (r: Vec<usize>)
        ensures
            r@ == shown_families(strings_view(self.families@), self.filter@),
    {
        let ghost fams = strings_view(self.families@);
        let n = self.families.len();
        let mut r: Vec<usize> = Vec::new();
        if self.filter.unicode_len() == 0 {
            let mut i: usize = 0;
            while i < n
                invariant
                    n == self.families@.len(),
                    i <= n,
                    r@ == Seq::new(i as nat, |k: int| k as usize),
                decreases n - i,
            {
                r.push(i);
                i = i + 1;
                assert(r@ =~= Seq::new(i as nat, |k: int| k as usize));
            }
            return r;
        }
        let needle = to_lowercase(self.filter.as_str());
        let mut k: usize = n;
        let mut rev: Vec<usize> = Vec::new();
        while k > 0
            invariant
                n == self.families@.len(),
                fams == strings_view(self.families@),
                k <= n,
                rev@.len() == matching_from(fams, needle@, k as int).len(),
                forall|j: int| 0 <= j < rev@.len() ==> #[trigger] rev@[j] == matching_from(fams, needle@, k as int)[rev@.len() - 1 - j],
            decreases k,
        {
            k = k - 1;
            let lower = to_lowercase(self.families[k].as_str());
            assert(fams[k as int] == self.families@[k as int]@);
            let ghost tail = matching_from(fams, needle@, k + 1);
            if contains_str(lower.as_str(), needle.as_str()) {
                rev.push(k);
                assert(matching_from(fams, needle@, k as int) == seq![k] + tail);
                assert forall|j: int| 0 <= j < rev@.len() implies #[trigger] rev@[j] == matching_from(fams, needle@, k as int)[rev@.len() - 1 - j] by {
                    if j < rev@.len() - 1 {
                        assert(rev@[j] == tail[rev@.len() - 2 - j]);
                    }
                }
            }
        }
        let mut j: usize = rev.len();
        while j > 0
            invariant
                j <= rev@.len(),
                rev@.len() == matching_from(fams, needle@, 0).len(),
                forall|t: int| 0 <= t < rev@.len() ==> #[trigger] rev@[t] == matching_from(fams, needle@, 0)[rev@.len() - 1 - t],
                r@ == matching_from(fams, needle@, 0).take(rev@.len() - j),
            decreases j,
        {
            j = j - 1;
            r.push(rev[j]);
            assert(r@ =~= matching_from(fams, needle@, 0).take(rev@.len() - j));
        }
        assert(r@ =~= matching_from(fams, needle@, 0));
        r
    }

    /// Confirm, `size_ok` telling whether the typed size is valid: see
    /// `picker_confirm_post`.
    pub fn confirm(&mut self, size_ok: bool)
        requires
            old(self).charset_index < CHARSET_COUNT,
        ensures
            picker_confirm_post(*old(self), *final(self), size_ok),
    {
        let indices = self.filtered_indices();
        if self.selected >= indices.len() {
            self.error_message = copy_string("Select a font family");
            return;
        }
        if !size_ok {
            self.error_message = copy_string("Size must be 4-200");
            self.selected_field = Field::Size;
            return;
        }
        let idx = indices[self.selected];
        proof {
            lemma_shown_below(strings_view(self.families@), self.filter@, self.selected as int);
        }
        self.result_family = copy_string(self.families[idx].as_str());
        self.result_charset = copy_string(charset_name(self.charset_index));
        self.confirmed = true;
        self.active = false;
    }

    /// A key: see `picker_key_post`.
    pub fn handle_key(&mut self, code: KeyCode, size_ok: bool) -> (used: bool)
        requires
            old(self).charset_index + CHARSET_COUNT <= usize::MAX,
            old(self).selected < usize::MAX,
            code == KeyCode::Enter ==> old(self).charset_index < CHARSET_COUNT,
        ensures
            picker_key_post(*old(self), *final(self), code, size_ok, used),
    {
        let f = self.selected_field;
        match code {
            KeyCode::Tab => {
                self.selected_field = match f {
                    Field::List => Field::Size,
                    Field::Size => Field::Charset,
                    Field::Charset => Field::List,
                };
                true
            },
            KeyCode::Up => {
                if f == Field::List {
                    self.selected = if self.selected > 0 { self.selected - 1 } else { 0 };
                    true
                } else {
                    false
                }
            },
            KeyCode::Down => {
                if f == Field::List {
                    let count = self.filtered_indices().len();
                    if self.selected + 1 < count {
                        self.selected = self.selected + 1;
                    }
                    true
                } else {
                    false
                }
            },
            KeyCode::Left => {
                if f == Field::Charset {
                    self.cycle_charset(false);
                    true
                } else {
                    false
                }
            },
            KeyCode::Right => {
                if f == Field::Charset {
                    self.cycle_charset(true);
                    true
                } else {
                    false
                }
            },
            KeyCode::Char(c) => {
                if f == Field::List && !is_ascii_digit(c) {
                    push_char(&mut self.filter, c);
                    self.selected = 0;
                    self.error_message = String::new();
                    true
                } else if f == Field::Size && is_ascii_digit(c) {
                    if self.size_buffer.as_str().len() < 3 {
                        push_char(&mut self.size_buffer, c);
                    }
                    self.error_message = String::new();
                    true
                } else if f == Field::Size && c == '.' {
                    if !contains_str(self.size_buffer.as_str(), ".") {
                        push_char(&mut self.size_buffer, '.');
                    }
                    true
                } else {
                    false
                }
            },
            KeyCode::Backspace => {
                match f {
                    Field::List => {
                        pop_char(&mut self.filter);
                        self.selected = 0;
                    },
                    Field::Size => {
                        pop_char(&mut self.size_buffer);
                    },
                    Field::Charset => {},
                }
                self.error_message = String::new();
                true
            },
            KeyCode::Enter => {
                self.confirm(size_ok);
                true
            },
            KeyCode::Esc => {
                self.close();
                true
            },
            _ => false,
        }
    }
}

proof fn lemma_matching_below(families: Seq<Seq<char>>, needle: Seq<char>, k: int)
    requires
        0 <= k,
    ensures
        forall|j: int| 0 <= j < matching_from(families, needle, k).len() ==> (#[trigger] matching_from(families, needle, k)[j]) < families.len(),
    decreases families.len() - k,
{
    if k < families.len() {
        lemma_matching_below(families, needle, k + 1);
        let m = matching_from(families, needle, k);
        let t = matching_from(families, needle, k + 1);
        assert forall|j: int| 0 <= j < m.len() implies (#[trigger] m[j]) < families.len() by {
            if contains_text(lowercase(families[k]), needle) {
                if j > 0 {
                    assert(m[j] == t[j - 1]);
                }
            }
        }
    }
}

proof fn lemma_shown_below(families: Seq<Seq<char>>, filter: Seq<char>, i: int)
    requires
        0 <= i < shown_families(families, filter).len(),
    ensures
        shown_families(families, filter)[i] < families.len(),
{
    if filter.len() > 0 {
        lemma_matching_below(families, lowercase(filter), 0);
    }
}

/// Every family the filter shows is one of the listed families, so the
/// picker never points past its list; an empty filter shows them all.
pub proof fn law_shown_families_listed(families: Seq<Seq<char>>, filter: Seq<char>)
    ensures
        forall|i: int| 0 <= i < shown_families(families, filter).len() ==> (#[trigger] shown_families(families, filter)[i]) < families.len(),
        filter.len() == 0 ==> shown_families(families, filter).len() == families.len(),
{
    assert forall|i: int| 0 <= i < shown_families(families, filter).len() implies (#[trigger] shown_families(families, filter)[i]) < families.len() by {
        lemma_shown_below(families, filter, i);
    }
}

impl Default for SystemFontPickerDialog {
    fn default() -> (d: SystemFontPickerDialog)
        ensures
            !d.active,
            d.charset_index == 2,
    {
        SystemFontPickerDialog::new()
    }
}

} // verus!
