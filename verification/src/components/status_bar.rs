use vstd::prelude::*;

use crate::text::{copy_string, decimal, push_decimal, push_str, str_eq};

verus! {

/// How the status bar uses its row.
#[derive(Debug, Clone, PartialEq, Eq)]
pub enum StatusLayout {
    /// The row is too narrow for anything.
    Hidden,
    /// Only the mode item fits: show this many of its characters.
    ModeOnly(usize),
    /// Show these items, by position, separated by three-cell bars.
    Items(Vec<usize>),
}

/// The cells the items at positions `idx` take with a three-cell bar
/// between neighbours.
pub open spec fn items_width(widths: Seq<u16>, idx: Seq<usize>) -> int
    decreases idx.len(),
{
    if idx.len() == 0 {
        0
    } else if idx.len() == 1 {
        widths[idx[0] as int] as int
    } else {
        items_width(widths, idx.drop_last()) + 3 + widths[idx.last() as int]
    }
}

/// The last position before `k` in `idx` whose item may be dropped.
pub open spec fn last_droppable(keep: Seq<bool>, idx: Seq<usize>, k: int) -> Option<int>
    decreases k,
{
    if k <= 0 {
        None
    } else if !keep[idx[k - 1] as int] {
        Some(k - 1)
    } else {
        last_droppable(keep, idx, k - 1)
    }
}

/// The items shown: while they do not fit in `area` cells, the rightmost
/// item that may be dropped goes.
pub open spec fn fitted(widths: Seq<u16>, keep: Seq<bool>, idx: Seq<usize>, area: int) -> Seq<usize>
    decreases idx.len(),
{
    if items_width(widths, idx) <= area {
        idx
    } else {
        match last_droppable(keep, idx, idx.len() as int) {
            Some(j) => if 0 <= j < idx.len() {
                fitted(widths, keep, idx.remove(j), area)
            } else {
                idx
            },
            None => idx,
        }
    }
}

/// All positions below `n`, in order.
pub open spec fn all_items(n: nat) -> Seq<usize> {
    Seq::new(n, |i: int| i as usize)
}

/// The cells the items take, with bars.
fn width_of(widths: &Vec<u16>, idx: &Vec<usize>) -> (w: u64)
    requires
        forall|k: int| 0 <= k < idx@.len() ==> idx@[k] < widths@.len(),
        idx@.len() <= u32::MAX,
    ensures
        w == items_width(widths@, idx@),
{
    let mut w: u64 = 0;
    let mut k: usize = 0;
    while k < idx.len()
        invariant
            k <= idx@.len(),
            idx@.len() <= u32::MAX,
            forall|j: int| 0 <= j < idx@.len() ==> idx@[j] < widths@.len(),
            w == items_width(widths@, idx@.take(k as int)),
            w <= k * 65539,
        decreases idx@.len() - k,
    {
        assert(idx@.take(k + 1).drop_last() =~= idx@.take(k as int));
        assert(idx@.take(k + 1).last() == idx@[k as int]);
        let x = widths[idx[k]] as u64;
        if k == 0 {
            w = x;
        } else {
            w = w + 3 + x;
        }
        k = k + 1;
    }
    assert(idx@.take(k as int) =~= idx@);
    w
}

fn find_droppable(keep: &Vec<bool>, idx: &Vec<usize>) -> (r: Option<usize>)
    requires
        forall|k: int| 0 <= k < idx@.len() ==> idx@[k] < keep@.len(),
    ensures
        match r {
            Some(j) => last_droppable(keep@, idx@, idx@.len() as int) == Some(j as int) && j < idx@.len(),
            None => last_droppable(keep@, idx@, idx@.len() as int) is None,
        },
{
    let mut k: usize = idx.len();
    while k > 0
        invariant
            k <= idx@.len(),
            forall|j: int| 0 <= j < idx@.len() ==> idx@[j] < keep@.len(),
            last_droppable(keep@, idx@, idx@.len() as int) == last_droppable(keep@, idx@, k as int),
        decreases k,
    {
        if !keep[idx[k - 1]] {
            return Some(k - 1);
        }
        k = k - 1;
    }
    None
}

/// The items that fit in `area_width` cells: see `fitted`.
pub fn fit_items(widths: &Vec<u16>, keep: &Vec<bool>, area_width: u16) -> (r: Vec<usize>)
    requires
        widths@.len() == keep@.len(),
        widths@.len() <= u32::MAX,
        items_width(widths@, all_items(widths@.len())) <= u16::MAX,
    ensures
        r@ == fitted(widths@, keep@, all_items(widths@.len()), area_width as int),
{
    let mut idx: Vec<usize> = Vec::new();
    let mut i: usize = 0;
    while i < widths.len()
        invariant
            i <= widths@.len(),
            idx@ == all_items(i as nat),
        decreases widths@.len() - i,
    {
        idx.push(i);
        i = i + 1;
        assert(idx@ =~= all_items(i as nat));
    }
    loop
        invariant
            widths@.len() == keep@.len(),
            widths@.len() <= u32::MAX,
            idx@.len() <= widths@.len(),
            forall|k: int| 0 <= k < idx@.len() ==> idx@[k] < widths@.len(),
            fitted(widths@, keep@, idx@, area_width as int) == fitted(widths@, keep@, all_items(widths@.len()), area_width as int),
        decreases idx@.len(),
    {
        let w = width_of(widths, &idx);
        if w <= area_width as u64 {
            return idx;
        }
        match find_droppable(keep, &idx) {
            Some(j) => {
                let ghost before = idx@;
                idx.remove(j);
                assert(idx@ == before.remove(j as int));
                assert forall|k: int| 0 <= k < idx@.len() implies idx@[k] < widths@.len() by {
                    if k < j {
                        assert(idx@[k] == before[k]);
                    } else {
                        assert(idx@[k] == before[k + 1]);
                    }
                }
            },
            None => {
                return idx;
            },
        }
    }
}

/// The status bar's use of its row: see `status_layout_of`, with the items
/// that fit (see `fit_items`) when there is room for more than the mode.
pub fn status_layout(widths: &Vec<u16>, keep: &Vec<bool>, area_width: u16) -> (r: StatusLayout)
    requires
        widths@.len() == keep@.len(),
        3 <= widths@.len() <= u32::MAX,
        widths@[0] + widths@[2] + 3 <= u16::MAX,
        area_width >= 10 && widths@[0] + widths@[2] + 3 < area_width ==> items_width(widths@, all_items(widths@.len())) <= u16::MAX,
    ensures
        area_width < 10 ==> r == StatusLayout::Hidden,
        area_width >= 10 && widths@[0] + widths@[2] + 3 >= area_width ==> r == StatusLayout::ModeOnly((area_width - 2) as usize),
        area_width >= 10 && widths@[0] + widths@[2] + 3 < area_width ==> (r matches StatusLayout::Items(v)
            && v@ == fitted(widths@, keep@, all_items(widths@.len()), area_width as int)),
{
    if area_width < 10 {
        return StatusLayout::Hidden;
    }
    if widths[0] + widths[2] + 3 >= area_width {
        return StatusLayout::ModeOnly((area_width - 2) as usize);
    }
    StatusLayout::Items(fit_items(widths, keep, area_width))
}


/// What the editor is showing.
#[derive(Debug, Clone, Copy, PartialEq, Eq, Structural)]
pub enum AppMode {
    FontEditor,
    ImageEditor,
    AsciiPreview,
    Lighting,
}

/// How a piece of the status bar is coloured.
#[derive(Debug, Clone, Copy, PartialEq, Eq, Structural)]
pub enum StatusRole {
    /// The colour of the mode shown, bold.
    Mode(AppMode),
    /// The terminal's own colours.
    Plain,
    Label,
    FontName,
    Unsaved,
    Saved,
    GlyphCount,
    GitBranch,
    Fps,
}

/// A piece of text of the status bar.
#[derive(Debug, Clone, PartialEq, Eq)]
pub struct StatusSpan {
    pub text: String,
    pub role: StatusRole,
}

/// An item of the status bar: its pieces, and whether it stays when the row
/// is too narrow.
#[derive(Debug, Clone, PartialEq, Eq)]
pub struct StatusItem {
    pub spans: Vec<StatusSpan>,
    pub keep: bool,
}

/// What the status bar shows. Real numbers come already written: the frame
/// rate as `fps_text`, the light's intensity as `intensity_text`.
pub struct StatusBar {
    pub mode: AppMode,
    pub mode_name: String,
    pub cursor: (u16, u16),
    pub zoom: u8,
    pub tool_name: String,
    pub unsaved: bool,
    pub font_name: Option<String>,
    pub glyph_count: Option<usize>,
    pub git_branch: Option<String>,
    pub fps_text: String,
    pub render_mode: String,
    pub clock_str: String,
    pub layer_count: u8,
    pub undo_count: usize,
    pub throbber_text: String,
    /// Icons by name, each name once.
    pub icons: Vec<(String, String)>,
    pub lighting_active: bool,
    pub light_type: Option<String>,
    pub intensity_text: Option<String>,
}

/// The icon named `key`, or `fallback` when there is none.
pub open spec fn icon_of(icons: Seq<(String, String)>, key: Seq<char>, fallback: Seq<char>) -> Seq<char>
    decreases icons.len(),
{
    if icons.len() == 0 {
        fallback
    } else if icons[0].0@ == key {
        icons[0].1@
    } else {
        icon_of(icons.drop_first(), key, fallback)
    }
}

/// A piece of text as the specification reads it.
pub type SpanModel = (Seq<char>, StatusRole);

/// An item with one piece.
pub open spec fn single(text: Seq<char>, role: StatusRole, keep: bool) -> (Seq<SpanModel>, bool) {
    (seq![(text, role)], keep)
}

/// `text` with a space on each side.
pub open spec fn spaced_text(text: Seq<char>) -> Seq<char> {
    " "@ + text + " "@
}

/// The pieces about the font: its name, whether it is saved, its glyph
/// count.
pub open spec fn font_spans(b: StatusBar) -> Seq<SpanModel> {
    let icons = b.icons@;
    let has_font = b.font_name is Some;
    let name = match b.font_name {
        Some(n) => seq![(spaced_text(icon_of(icons, "status_font"@, "F"@) + " "@ + n@), StatusRole::FontName)],
        None => Seq::empty(),
    };
    let saved = if b.unsaved {
        seq![(spaced_text(icon_of(icons, "status_unsaved"@, "!"@)), StatusRole::Unsaved)]
    } else if has_font {
        seq![(spaced_text(icon_of(icons, "status_saved"@, "*"@)), StatusRole::Saved)]
    } else {
        Seq::empty()
    };
    let count = match b.glyph_count {
        Some(c) => if has_font {
            seq![(spaced_text(icon_of(icons, "status_glyph"@, "#"@) + " "@ + decimal(c as nat)), StatusRole::GlyphCount)]
        } else {
            Seq::empty()
        },
        None => Seq::empty(),
    };
    name + saved + count
}

/// The frame rate item.
pub open spec fn fps_item(b: StatusBar) -> (Seq<SpanModel>, bool) {
    single(spaced_text("FPS:"@ + b.fps_text@), StatusRole::Fps, false)
}

/// The clock item.
pub open spec fn clock_item(b: StatusBar) -> (Seq<SpanModel>, bool) {
    single(spaced_text(icon_of(b.icons@, "status_clock"@, "\u{1f550}"@) + " "@ + b.clock_str@), StatusRole::Label, false)
}

/// The items while lighting: its label, the light with its intensity, the
/// frame rate and the clock.
pub open spec fn lighting_part(b: StatusBar) -> Seq<(Seq<SpanModel>, bool)> {
    let light = match b.light_type {
        Some(lt) => seq![single(
            spaced_text(lt@ + " "@ + match b.intensity_text { Some(t) => spaced_text(t@), None => Seq::empty() }),
            StatusRole::Label,
            true,
        )],
        None => Seq::empty(),
    };
    seq![single(" LIGHTING "@, StatusRole::Mode(b.mode), true)] + light + seq![fps_item(b), clock_item(b)]
}

/// Mode, tool and cursor position (always kept), then the zoom.
pub open spec fn fixed_part(b: StatusBar) -> Seq<(Seq<SpanModel>, bool)> {
    let icons = b.icons@;
    seq![
        single(spaced_text(icon_of(icons, "status_mode"@, "M"@) + " "@ + b.mode_name@), StatusRole::Mode(b.mode), true),
        single(spaced_text(icon_of(icons, "status_tool"@, "T"@) + " "@ + b.tool_name@), StatusRole::Plain, true),
        single(spaced_text(icon_of(icons, "status_position"@, "+"@) + " X:"@ + decimal(b.cursor.0 as nat) + " Y:"@ + decimal(b.cursor.1 as nat)), StatusRole::Plain, true),
        single(spaced_text(icon_of(icons, "status_zoom"@, "Z"@) + " "@ + decimal(b.zoom as nat) + "x"@), StatusRole::Label, false),
    ]
}

/// The font item, when there is anything to say of the font.
pub open spec fn font_part(b: StatusBar) -> Seq<(Seq<SpanModel>, bool)> {
    if font_spans(b).len() > 0 { seq![(font_spans(b), false)] } else { Seq::empty() }
}

/// The git branch item, when there is a branch.
pub open spec fn branch_part(b: StatusBar) -> Seq<(Seq<SpanModel>, bool)> {
    match b.git_branch {
        Some(g) => seq![single(spaced_text(icon_of(b.icons@, "status_git_branch"@, "\u{2387}"@) + " "@ + g@), StatusRole::GitBranch, false)],
        None => Seq::empty(),
    }
}

/// Render mode, layer count, undo count and progress, each when there is
/// something to show.
pub open spec fn counts_part(b: StatusBar) -> Seq<(Seq<SpanModel>, bool)> {
    let icons = b.icons@;
    let render = if b.render_mode@.len() > 0 { seq![single(spaced_text(b.render_mode@), StatusRole::Label, false)] } else { Seq::empty() };
    let layers = if b.layer_count > 0 {
        seq![single(spaced_text(icon_of(icons, "status_layer"@, "L"@) + ":"@ + decimal(b.layer_count as nat)), StatusRole::Label, false)]
    } else {
        Seq::empty()
    };
    let undo = if b.undo_count > 0 {
        seq![single(spaced_text(icon_of(icons, "status_undo"@, "U"@) + ":"@ + decimal(b.undo_count as nat)), StatusRole::Label, false)]
    } else {
        Seq::empty()
    };
    let throbber = if b.throbber_text@.len() > 0 { seq![single(spaced_text(b.throbber_text@), StatusRole::Plain, false)] } else { Seq::empty() };
    render + layers + undo + throbber
}

/// Git branch, frame rate, clock, then the counts.
pub open spec fn tail_part(b: StatusBar) -> Seq<(Seq<SpanModel>, bool)> {
    branch_part(b) + seq![fps_item(b), clock_item(b)] + counts_part(b)
}

/// The items of the status bar, left to right: see `lighting_part` while
/// lighting, else `fixed_part`, `font_part` and `tail_part`.
pub open spec fn status_items(b: StatusBar) -> Seq<(Seq<SpanModel>, bool)> {
    if b.lighting_active {
        lighting_part(b)
    } else {
        fixed_part(b) + font_part(b) + tail_part(b)
    }
}

/// The items as the specification reads them.
pub open spec fn items_model(v: Seq<StatusItem>) -> Seq<(Seq<SpanModel>, bool)> {
    v.map_values(|it: StatusItem| (it.spans@.map_values(|sp: StatusSpan| (sp.text@, sp.role)), it.keep))
}

fn decimal_text(n: usize) -> (s: String)
    ensures
        s@ == decimal(n as nat),
{
    let mut s = String::new();
    push_decimal(&mut s, n);
    s
}

fn item(text: String, role: StatusRole, keep: bool) -> (it: StatusItem)
    ensures
        items_model(seq![it]) == seq![single(text@, role, keep)],
{
    let ghost tv = text@;
    let mut spans: Vec<StatusSpan> = Vec::new();
    spans.push(StatusSpan { text, role });
    let it = StatusItem { spans, keep };
    assert(it.spans@.map_values(|sp: StatusSpan| (sp.text@, sp.role)) =~= seq![(tv, role)]);
    assert(items_model(seq![it]) =~= seq![single(tv, role, keep)]);
    it
}

impl StatusBar {
    /// The bar with lighting shown (or not), with the light's kind and its
    /// intensity as written.
    pub fn with_lighting(self, active: bool, light_type: Option<String>, intensity_text: Option<String>) -> (b: StatusBar)
        ensures
            b == (StatusBar { lighting_active: active, light_type: light_type, intensity_text: intensity_text, ..self }),
    {
        StatusBar { lighting_active: active, light_type, intensity_text, ..self }
    }

    /// The icon named `key`, or `fallback`.
    pub fn icon(&self, key: &str, fallback: &'static str) -> (r: String)
        ensures
            r@ == icon_of(self.icons@, key@, fallback@),
    {
        let mut k: usize = 0;
        assert(self.icons@.skip(0) =~= self.icons@);
        while k < self.icons.len()
            invariant
                k <= self.icons@.len(),
                icon_of(self.icons@, key@, fallback@) == icon_of(self.icons@.skip(k as int), key@, fallback@),
            decreases self.icons@.len() - k,
        {
            assert(self.icons@.skip(k as int)[0] == self.icons@[k as int]);
            assert(self.icons@.skip(k as int).drop_first() =~= self.icons@.skip(k + 1));
            if str_eq(self.icons[k].0.as_str(), key) {
                return copy_string(self.icons[k].1.as_str());
            }
            k = k + 1;
        }
        assert(self.icons@.skip(k as int) =~= Seq::<(String, String)>::empty());
        copy_string(fallback)
    }
}

/// " ", `a`, `b`, `c`, `d`, " ".
fn spaced4(a: &str, b: &str, c: &str, d: &str) -> (t: String)
    ensures
        t@ == spaced_text(a@ + b@ + c@ + d@),
{
    let mut t = copy_string(" ");
    push_str(&mut t, a);
    push_str(&mut t, b);
    push_str(&mut t, c);
    push_str(&mut t, d);
    push_str(&mut t, " ");
    assert(t@ =~= spaced_text(a@ + b@ + c@ + d@));
    t
}

fn push_item(items: &mut Vec<StatusItem>, it: StatusItem)
    ensures
        items_model(final(items)@) == items_model(old(items)@) + items_model(seq![it]),
{
    let ghost before = items@;
    items.push(it);
    assert(items_model(items@) =~= items_model(before) + items_model(seq![it]));
}

impl StatusBar {
    fn font_item(&self) -> (r: Vec<StatusSpan>)
        ensures
            r@.map_values(|sp: StatusSpan| (sp.text@, sp.role)) == font_spans(*self),
    {
        proof {
            reveal_strlit("");
            reveal_strlit(" ");
        }
        let mut spans: Vec<StatusSpan> = Vec::new();
        let has_font = self.font_name.is_some();
        match &self.font_name {
            Some(n) => {
                let icon = self.icon("status_font", "F");
                spans.push(StatusSpan { text: spaced4(icon.as_str(), " ", n.as_str(), ""), role: StatusRole::FontName });
            },
            None => {},
        }
        if self.unsaved {
            let icon = self.icon("status_unsaved", "!");
            spans.push(StatusSpan { text: spaced4(icon.as_str(), "", "", ""), role: StatusRole::Unsaved });
        } else if has_font {
            let icon = self.icon("status_saved", "*");
            spans.push(StatusSpan { text: spaced4(icon.as_str(), "", "", ""), role: StatusRole::Saved });
        }
        if has_font {
            match self.glyph_count {
                Some(c) => {
                    let icon = self.icon("status_glyph", "#");
                    let num = decimal_text(c);
                    spans.push(StatusSpan { text: spaced4(icon.as_str(), " ", num.as_str(), ""), role: StatusRole::GlyphCount });
                },
                None => {},
            }
        }
        assert(spans@.map_values(|sp: StatusSpan| (sp.text@, sp.role)) =~= font_spans(*self));
        spans
    }
}

impl StatusBar {
    fn fps_clock(&self, items: &mut Vec<StatusItem>)
        ensures
            items_model(final(items)@) == items_model(old(items)@) + seq![fps_item(*self), clock_item(*self)],
    {
        proof {
            reveal_strlit("");
            reveal_strlit(" ");
            reveal_strlit("FPS:");
        }
        let ghost before = items_model(items@);
        push_item(items, item(spaced4("FPS:", self.fps_text.as_str(), "", ""), StatusRole::Fps, false));
        let clock_icon = self.icon("status_clock", "\u{1f550}");
        push_item(items, item(spaced4(clock_icon.as_str(), " ", self.clock_str.as_str(), ""), StatusRole::Label, false));
        assert(items_model(items@) =~= before + seq![fps_item(*self), clock_item(*self)]);
    }

    fn lighting_items(&self, items: &mut Vec<StatusItem>)
        ensures
            items_model(final(items)@) == items_model(old(items)@) + lighting_part(*self),
    {
        proof {
            reveal_strlit("");
            reveal_strlit(" ");
            reveal_strlit(" LIGHTING ");
        }
        let ghost before = items_model(items@);
        push_item(items, item(copy_string(" LIGHTING "), StatusRole::Mode(self.mode), true));
        match &self.light_type {
            Some(lt) => {
                let intensity = match &self.intensity_text {
                    Some(t) => spaced4(t.as_str(), "", "", ""),
                    None => String::new(),
                };
                push_item(items, item(spaced4(lt.as_str(), " ", intensity.as_str(), ""), StatusRole::Label, true));
            },
            None => {},
        }
        self.fps_clock(items);
        assert(items_model(items@) =~= before + lighting_part(*self));
    }

    fn fixed_items(&self, items: &mut Vec<StatusItem>)
        ensures
            items_model(final(items)@) == items_model(old(items)@) + fixed_part(*self),
    {
        proof {
            reveal_strlit("");
            reveal_strlit(" ");
            reveal_strlit("x");
            reveal_strlit(" X:");
            reveal_strlit(" Y:");
        }
        let ghost before = items_model(items@);
        let icon = self.icon("status_mode", "M");
        push_item(items, item(spaced4(icon.as_str(), " ", self.mode_name.as_str(), ""), StatusRole::Mode(self.mode), true));
        let icon = self.icon("status_tool", "T");
        push_item(items, item(spaced4(icon.as_str(), " ", self.tool_name.as_str(), ""), StatusRole::Plain, true));
        let icon = self.icon("status_position", "+");
        let cx = decimal_text(self.cursor.0 as usize);
        let cy = decimal_text(self.cursor.1 as usize);
        let mut pos = copy_string(" ");
        push_str(&mut pos, icon.as_str());
        push_str(&mut pos, " X:");
        push_str(&mut pos, cx.as_str());
        push_str(&mut pos, " Y:");
        push_str(&mut pos, cy.as_str());
        push_str(&mut pos, " ");
        assert(pos@ =~= spaced_text(icon_of(self.icons@, "status_position"@, "+"@) + " X:"@ + decimal(self.cursor.0 as nat) + " Y:"@ + decimal(self.cursor.1 as nat)));
        push_item(items, item(pos, StatusRole::Plain, true));
        let icon = self.icon("status_zoom", "Z");
        let z = decimal_text(self.zoom as usize);
        push_item(items, item(spaced4(icon.as_str(), " ", z.as_str(), "x"), StatusRole::Label, false));
        assert(items_model(items@) =~= before + fixed_part(*self));
    }

    fn counts_items(&self, items: &mut Vec<StatusItem>)
        ensures
            items_model(final(items)@) == items_model(old(items)@) + counts_part(*self),
    {
        proof {
            reveal_strlit("");
            reveal_strlit(":");
        }
        let ghost before = items_model(items@);
        let ghost icons = self.icons@;
        let ghost render = if self.render_mode@.len() > 0 { seq![single(spaced_text(self.render_mode@), StatusRole::Label, false)] } else { Seq::empty() };
        let ghost layers = if self.layer_count > 0 {
            seq![single(spaced_text(icon_of(icons, "status_layer"@, "L"@) + ":"@ + decimal(self.layer_count as nat)), StatusRole::Label, false)]
        } else {
            Seq::empty()
        };
        let ghost undo = if self.undo_count > 0 {
            seq![single(spaced_text(icon_of(icons, "status_undo"@, "U"@) + ":"@ + decimal(self.undo_count as nat)), StatusRole::Label, false)]
        } else {
            Seq::empty()
        };
        if self.render_mode.unicode_len() > 0 {
            push_item(items, item(spaced4(self.render_mode.as_str(), "", "", ""), StatusRole::Label, false));
        }
        assert(items_model(items@) =~= before + render);
        if self.layer_count > 0 {
            let icon = self.icon("status_layer", "L");
            let n = decimal_text(self.layer_count as usize);
            push_item(items, item(spaced4(icon.as_str(), ":", n.as_str(), ""), StatusRole::Label, false));
        }
        assert(items_model(items@) =~= before + render + layers);
        if self.undo_count > 0 {
            let icon = self.icon("status_undo", "U");
            let n = decimal_text(self.undo_count);
            push_item(items, item(spaced4(icon.as_str(), ":", n.as_str(), ""), StatusRole::Label, false));
        }
        assert(items_model(items@) =~= before + render + layers + undo);
        if self.throbber_text.unicode_len() > 0 {
            push_item(items, item(spaced4(self.throbber_text.as_str(), "", "", ""), StatusRole::Plain, false));
        }
        assert(items_model(items@) =~= before + counts_part(*self));
    }

    fn tail_items(&self, items: &mut Vec<StatusItem>)
        ensures
            items_model(final(items)@) == items_model(old(items)@) + tail_part(*self),
    {
        proof {
            reveal_strlit("");
            reveal_strlit(" ");
        }
        let ghost before = items_model(items@);
        match &self.git_branch {
            Some(g) => {
                let icon = self.icon("status_git_branch", "\u{2387}");
                push_item(items, item(spaced4(icon.as_str(), " ", g.as_str(), ""), StatusRole::GitBranch, false));
            },
            None => {},
        }
        assert(items_model(items@) =~= before + branch_part(*self));
        self.fps_clock(items);
        self.counts_items(items);
        assert(items_model(items@) =~= before + tail_part(*self));
    }

    /// The items of the status bar: see `status_items`.
    pub fn items(&self) -> (r: Vec<StatusItem>)
        ensures
            items_model(r@) == status_items(*self),
    {
        let mut items: Vec<StatusItem> = Vec::new();
        assert(items_model(items@) =~= Seq::<(Seq<SpanModel>, bool)>::empty());
        if self.lighting_active {
            self.lighting_items(&mut items);
            assert(items_model(items@) =~= status_items(*self));
            return items;
        }
        self.fixed_items(&mut items);
        let font = self.font_item();
        if font.len() > 0 {
            let it = StatusItem { spans: font, keep: false };
            assert(items_model(seq![it]) =~= seq![(font_spans(*self), false)]);
            push_item(&mut items, it);
        }
        assert(font_spans(*self).len() == font@.len());
        self.tail_items(&mut items);
        assert(items_model(items@) =~= status_items(*self));
        items
    }
}


/// The columns a text takes on a terminal, as `Span::width` (the Unicode
/// width of its content) gives it.
pub uninterp spec fn display_width(s: Seq<char>) -> usize;

/// `Span::width` on a span of `s`: the Unicode width of the text.
#[verifier::external_body]
fn text_width(s: &str) -> (w: usize)
    ensures
        w == display_width(s@),
{
    ratatui::text::Span::raw(s).width()
}

/// The columns the pieces take together.
pub open spec fn spans_width(spans: Seq<StatusSpan>) -> int
    decreases spans.len(),
{
    if spans.len() == 0 {
        0
    } else {
        spans_width(spans.drop_last()) + display_width(spans.last().text@)
    }
}

/// The width of an item: the sum of its pieces' widths, cut to 16 bits;
/// `None` when the sum does not fit in a `usize`.
pub fn item_width(item: &StatusItem) -> (r: Option<u16>)
    ensures
        spans_width(item.spans@) <= usize::MAX ==> r == Some((spans_width(item.spans@) % 65536) as u16),
        spans_width(item.spans@) > usize::MAX ==> r is None,
{
    let mut total: usize = 0;
    let mut k: usize = 0;
    while k < item.spans.len()
        invariant
            k <= item.spans@.len(),
            total == spans_width(item.spans@.take(k as int)),
        decreases item.spans@.len() - k,
    {
        assert(item.spans@.take(k + 1).drop_last() =~= item.spans@.take(k as int));
        let w = text_width(item.spans[k].text.as_str());
        if total > usize::MAX - w {
            proof {
                lemma_spans_width_prefix(item.spans@, k + 1);
            }
            return None;
        }
        total = total + w;
        k = k + 1;
    }
    assert(item.spans@.take(k as int) =~= item.spans@);
    Some((total % 65536) as u16)
}

proof fn lemma_spans_width_prefix(spans: Seq<StatusSpan>, k: int)
    requires
        0 <= k <= spans.len(),
    ensures
        spans_width(spans.take(k)) <= spans_width(spans),
    decreases spans.len(),
{
    if k < spans.len() {
        assert(spans.drop_last().take(k) =~= spans.take(k));
        lemma_spans_width_prefix(spans.drop_last(), k);
    } else {
        assert(spans.take(k) =~= spans);
    }
}

/// The widths of the items (see `item_width`); `None` when one does not
/// fit in a `usize`.
pub fn item_widths(items: &Vec<StatusItem>) -> (r: Option<Vec<u16>>)
    ensures
        (forall|j: int| 0 <= j < items@.len() ==> spans_width(#[trigger] items@[j].spans@) <= usize::MAX) ==> (r matches Some(v)
            && v@.len() == items@.len()
            && forall|j: int| 0 <= j < items@.len() ==> #[trigger] v@[j] == (spans_width(items@[j].spans@) % 65536) as u16),
        (exists|j: int| 0 <= j < items@.len() && spans_width(#[trigger] items@[j].spans@) > usize::MAX) ==> r is None,
{
    let mut v: Vec<u16> = Vec::new();
    let mut j: usize = 0;
    while j < items.len()
        invariant
            j <= items@.len(),
            v@.len() == j,
            forall|t: int| 0 <= t < j ==> spans_width(#[trigger] items@[t].spans@) <= usize::MAX,
            forall|t: int| 0 <= t < j ==> #[trigger] v@[t] == (spans_width(items@[t].spans@) % 65536) as u16,
        decreases items@.len() - j,
    {
        match item_width(&items[j]) {
            Some(w) => v.push(w),
            None => return None,
        }
        j = j + 1;
    }
    Some(v)
}
} // verus!
