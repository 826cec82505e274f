use vstd::prelude::*;

use crate::layer_panel::{panel_rows, rows_from, LayerPanel, PanelRow};
use crate::layers::{truncate_str, truncated, GroupModel, LayerModel, LayerStack, StackModel};
use crate::text::{copy_string, decimal, push_char, push_decimal, push_str};

verus! {

// The text the layer panel shows: the toolbar, a header line for each
// group and two lines for each layer, as `LayerPanel::rows` orders them.

/// The icon table as pairs of key and icon.
pub open spec fn icons_view(v: Seq<(String, String)>) -> Seq<(Seq<char>, Seq<char>)> {
    v.map_values(|e: (String, String)| (e.0@, e.1@))
}

/// The icon the table gives for `key` (its first entry with that key), or
/// `fallback` when it has none.
pub open spec fn icon_or(icons: Seq<(Seq<char>, Seq<char>)>, key: Seq<char>, fallback: Seq<char>) -> Seq<char>
    decreases icons.len(),
{
    if icons.len() == 0 {
        fallback
    } else if icons[0].0 == key {
        icons[0].1
    } else {
        icon_or(icons.drop_first(), key, fallback)
    }
}

/// The icon for `key`, or `fallback`: see `icon_or`.
pub fn icon_lookup(icons: &Vec<(String, String)>, key: &str, fallback: &str) -> (r: String)
    ensures
        r@ == icon_or(icons_view(icons@), key@, fallback@),
{
    let mut i: usize = 0;
    assert(icons_view(icons@).skip(0) =~= icons_view(icons@));
    while i < icons.len()
        invariant
            i <= icons@.len(),
            icon_or(icons_view(icons@), key@, fallback@) == icon_or(icons_view(icons@).skip(i as int), key@, fallback@),
        decreases icons@.len() - i,
    {
        let ghost rest = icons_view(icons@).skip(i as int);
        assert(rest[0] == (icons@[i as int].0@, icons@[i as int].1@));
        if crate::text::str_eq(icons[i].0.as_str(), key) {
            return copy_string(icons[i].1.as_str());
        }
        assert(rest.drop_first() =~= icons_view(icons@).skip(i + 1));
        i = i + 1;
    }
    assert(icons_view(icons@).skip(i as int).len() == 0);
    copy_string(fallback)
}

/// How many of `layers` belong to group `g`.
pub open spec fn group_size(layers: Seq<LayerModel>, g: usize) -> nat
    decreases layers.len(),
{
    if layers.len() == 0 {
        0
    } else {
        group_size(layers.drop_last(), g) + if layers.last().group == Some(g) { 1nat } else { 0nat }
    }
}

proof fn lemma_group_size_bound(layers: Seq<LayerModel>, g: usize)
    ensures
        group_size(layers, g) <= layers.len(),
    decreases layers.len(),
{
    if layers.len() > 0 {
        lemma_group_size_bound(layers.drop_last(), g);
    }
}

/// The header line of a group holding `count` layers: a disclosure
/// triangle (pointing right when folded, down when not), the group's name
/// and the count in brackets.
pub open spec fn header_text(grp: GroupModel, count: nat) -> Seq<char> {
    seq![' ', if grp.collapsed { '\u{25b6}' } else { '\u{25bc}' }, ' '] + grp.name + seq![' ', '('] + decimal(count) + seq![')']
}

/// The indent of a layer's lines: two spaces inside a group.
pub open spec fn indent_of(l: LayerModel) -> Seq<char> {
    if l.group is Some {
        seq![' ', ' ']
    } else {
        Seq::empty()
    }
}

/// The most characters of a name shown on a panel `width` cells wide:
/// what is left after the indent and five cells, but at least four.
pub open spec fn name_room(width: u16, grouped: bool) -> nat {
    let used: int = if grouped { 7 } else { 5 };
    if width - used >= 4 {
        (width - used) as nat
    } else {
        4
    }
}

/// The first line of layer `idx`: the indent, a drag handle, a marker on
/// the active layer and the name (while it is renamed, what was typed and
/// a block cursor), cut to fit.
pub open spec fn name_text(p: LayerPanel, s: StackModel, idx: usize, width: u16) -> Seq<char> {
    let l = s.layers[idx as int];
    let shown = if p.renaming == Some(idx) { p.rename_buffer@.push('\u{2588}') } else { l.name };
    indent_of(l) + seq!['\u{283f}', ' ', if idx == s.active { '\u{203a}' } else { ' ' }, ' '] + truncated(
        shown,
        name_room(width, l.group is Some),
    )
}

/// An opacity out of 255 as a whole percentage, rounded to the nearest
/// (no opacity falls halfway between two).
pub open spec fn opacity_percent(o: u8) -> nat {
    ((200 * o + 255) / 510) as nat
}

/// The link mark after a linked layer's attributes.
pub open spec fn link_mark(l: LayerModel) -> Seq<char> {
    if l.link is Some {
        seq![' ', '\u{1f517}']
    } else {
        Seq::empty()
    }
}

/// What the second line of a layer shows between its indent and its link
/// mark: on a panel at least eight cells wide the visibility and lock
/// icons, the opacity and the blend mode's icon (each icon from the table,
/// with a letter or the mode's name when it has none); on a narrower one
/// letters and the opacity only.
pub open spec fn attr_body(l: LayerModel, width: u16, icons: Seq<(Seq<char>, Seq<char>)>) -> Seq<char> {
    if width >= 8 {
        let vis = if l.visible {
            icon_or(icons, "layer_visibility_on"@, "V"@)
        } else {
            icon_or(icons, "layer_visibility_off"@, "_"@)
        };
        let lock = if l.locked {
            icon_or(icons, "layer_lock"@, "L"@)
        } else {
            icon_or(icons, "layer_unlock"@, "U"@)
        };
        vis + seq![' ', ' '] + lock + seq![' ', ' '] + decimal(opacity_percent(l.opacity)) + seq!['%', ' ', ' ']
            + icon_or(icons, l.blend_mode.spec_icon_key(), l.blend_mode.spec_display_name())
    } else {
        seq![if l.visible { 'V' } else { '_' }, if l.locked { 'L' } else { '_' }, ' '] + decimal(opacity_percent(l.opacity)) + seq!['%']
    }
}

/// The second line of a layer: its indent, its attributes (see
/// `attr_body`) and, when linked, a link mark.
pub open spec fn attr_text(l: LayerModel, width: u16, icons: Seq<(Seq<char>, Seq<char>)>) -> Seq<char> {
    indent_of(l) + attr_body(l, width, icons) + link_mark(l)
}

/// A line of the list names a group or a layer of the stack.
pub open spec fn row_valid(s: StackModel, r: PanelRow) -> bool {
    match r {
        PanelRow::GroupHeader(g) => g < s.groups.len(),
        PanelRow::Layer(i) => i < s.layers.len(),
    }
}

proof fn lemma_rows_valid(s: StackModel, rev: nat, emitted: Set<usize>)
    ensures
        forall|k: int| 0 <= k < rows_from(s, rev, emitted).len() ==> row_valid(s, #[trigger] rows_from(s, rev, emitted)[k]),
    decreases s.layers.len() - rev,
{
    if rev < s.layers.len() {
        let idx = (s.layers.len() - 1 - rev) as usize;
        let r = rows_from(s, rev, emitted);
        match s.layers[idx as int].group {
            Some(g) => if g < s.groups.len() && !emitted.contains(g) {
                let tail = rows_from(s, rev + 1, emitted.insert(g));
                lemma_rows_valid(s, rev + 1, emitted.insert(g));
                if s.groups[g as int].collapsed {
                    assert forall|k: int| 0 <= k < r.len() implies row_valid(s, #[trigger] r[k]) by {
                        if k >= 1 {
                            assert(r[k] == tail[k - 1]);
                        }
                    }
                } else {
                    assert forall|k: int| 0 <= k < r.len() implies row_valid(s, #[trigger] r[k]) by {
                        if k >= 2 {
                            assert(r[k] == tail[k - 2]);
                        }
                    }
                }
            } else {
                let tail = rows_from(s, rev + 1, emitted);
                lemma_rows_valid(s, rev + 1, emitted);
                assert forall|k: int| 0 <= k < r.len() implies row_valid(s, #[trigger] r[k]) by {
                    if k >= 1 {
                        assert(r[k] == tail[k - 1]);
                    }
                }
            },
            None => {
                let tail = rows_from(s, rev + 1, emitted);
                lemma_rows_valid(s, rev + 1, emitted);
                assert forall|k: int| 0 <= k < r.len() implies row_valid(s, #[trigger] r[k]) by {
                    if k >= 1 {
                        assert(r[k] == tail[k - 1]);
                    }
                }
            },
        }
    }
}

/// The text lines of one line of the list: one for a group's header, two
/// for a layer.
pub open spec fn line_texts(p: LayerPanel, s: StackModel, width: u16, icons: Seq<(Seq<char>, Seq<char>)>, r: PanelRow) -> Seq<Seq<char>> {
    match r {
        PanelRow::GroupHeader(g) => seq![header_text(s.groups[g as int], group_size(s.layers, g))],
        PanelRow::Layer(i) => seq![name_text(p, s, i, width), attr_text(s.layers[i as int], width, icons)],
    }
}

/// The text lines of `rows`, top to bottom.
pub open spec fn all_lines(p: LayerPanel, s: StackModel, width: u16, icons: Seq<(Seq<char>, Seq<char>)>, rows: Seq<PanelRow>) -> Seq<Seq<char>>
    decreases rows.len(),
{
    if rows.len() == 0 {
        Seq::empty()
    } else {
        all_lines(p, s, width, icons, rows.drop_last()) + line_texts(p, s, width, icons, rows.last())
    }
}

/// The text lines the list shows in `visible` rows, scrolled by the
/// panel's offset.
pub open spec fn shown_lines(p: LayerPanel, s: StackModel, width: u16, icons: Seq<(Seq<char>, Seq<char>)>, visible: nat) -> Seq<Seq<char>> {
    let all = all_lines(p, s, width, icons, panel_rows(s));
    let start: int = if p.scroll <= all.len() { p.scroll as int } else { all.len() as int };
    let end: int = if p.scroll + visible <= all.len() { p.scroll + visible } else { all.len() as int };
    all.subrange(start, end)
}

/// The scroll marks: one at the top when the list is scrolled, one at the
/// bottom when lines are left below the `visible` rows.
pub open spec fn scroll_marks_of(p: LayerPanel, s: StackModel, visible: nat) -> (bool, bool) {
    let total = all_lines(p, s, 0, Seq::empty(), panel_rows(s)).len();
    (p.scroll > 0, total > p.scroll + visible)
}

proof fn lemma_all_lines_len(p: LayerPanel, s: StackModel, w1: u16, i1: Seq<(Seq<char>, Seq<char>)>, w2: u16, i2: Seq<(Seq<char>, Seq<char>)>, rows: Seq<PanelRow>)
    ensures
        all_lines(p, s, w1, i1, rows).len() == all_lines(p, s, w2, i2, rows).len(),
    decreases rows.len(),
{
    if rows.len() > 0 {
        lemma_all_lines_len(p, s, w1, i1, w2, i2, rows.drop_last());
    }
}

/// The label of toolbar button `i`: its icon from the table (or a letter,
/// or a link for Link) and its short name.
pub open spec fn button_text(i: int, icons: Seq<(Seq<char>, Seq<char>)>) -> Seq<char> {
    if i == 0 {
        seq![' '] + icon_or(icons, "layer_new"@, "+"@) + seq![' '] + "New"@
    } else if i == 1 {
        seq![' '] + icon_or(icons, "layer_duplicate"@, "D"@) + seq![' '] + "Dup"@
    } else if i == 2 {
        seq![' '] + icon_or(icons, "layer_delete"@, "x"@) + seq![' '] + "Del"@
    } else if i == 3 {
        seq![' '] + icon_or(icons, "layer_group"@, "G"@) + seq![' '] + "Grp"@
    } else {
        seq![' '] + icon_or(icons, "layer_link"@, "\u{1f517}"@) + seq![' '] + "Link"@
    }
}

/// The toolbar line of a panel `width` cells wide: the first `n` button
/// labels, each cut to a fifth of the width (at least one cell).
pub open spec fn toolbar_text(width: u16, icons: Seq<(Seq<char>, Seq<char>)>, n: int) -> Seq<char>
    decreases n,
{
    if n <= 0 {
        Seq::empty()
    } else {
        let bw: nat = if width / 5 >= 1 { (width / 5) as nat } else { 1 };
        toolbar_text(width, icons, n - 1) + truncated(button_text(n - 1, icons), bw)
    }
}

fn button_label(i: usize, icons: &Vec<(String, String)>) -> (r: String)
    requires
        i < 5,
    ensures
        r@ == button_text(i as int, icons_view(icons@)),
{
    let (key, fallback, name) = if i == 0 {
        ("layer_new", "+", "New")
    } else if i == 1 {
        ("layer_duplicate", "D", "Dup")
    } else if i == 2 {
        ("layer_delete", "x", "Del")
    } else if i == 3 {
        ("layer_group", "G", "Grp")
    } else {
        ("layer_link", "\u{1f517}", "Link")
    };
    let icon = icon_lookup(icons, key, fallback);
    let mut t = String::new();
    push_char(&mut t, ' ');
    push_str(&mut t, icon.as_str());
    push_char(&mut t, ' ');
    push_str(&mut t, name);
    assert(t@ =~= button_text(i as int, icons_view(icons@)));
    t
}

/// The toolbar line of the panel: see `toolbar_text`.
pub fn toolbar_label(width: u16, icons: &Vec<(String, String)>) -> (r: String)
    ensures
        r@ == toolbar_text(width, icons_view(icons@), 5),
{
    let bw: u16 = if width / 5 >= 1 { width / 5 } else { 1 };
    let mut t = String::new();
    let mut i: usize = 0;
    while i < 5
        invariant
            i <= 5,
            bw == (if width / 5 >= 1 { width / 5 } else { 1 }),
            t@ == toolbar_text(width, icons_view(icons@), i as int),
        decreases 5 - i,
    {
        let label = button_label(i, icons);
        let cut = truncate_str(label.as_str(), bw as usize);
        push_str(&mut t, cut.as_str());
        i = i + 1;
    }
    t
}

fn group_count(stack: &LayerStack, g: usize) -> (n: usize)
    ensures
        n == group_size(stack@.layers, g),
{
    let mut n: usize = 0;
    let mut i: usize = 0;
    while i < stack.layers.len()
        invariant
            i <= stack@.layers.len(),
            n == group_size(stack@.layers.take(i as int), g),
            n <= i,
        decreases stack@.layers.len() - i,
    {
        assert(stack@.layers.take(i + 1).drop_last() =~= stack@.layers.take(i as int));
        assert(stack@.layers[i as int] == stack.layers@[i as int]@);
        proof {
            lemma_group_size_bound(stack@.layers.take(i as int), g);
        }
        if stack.layers[i].group == Some(g) {
            n = n + 1;
        }
        i = i + 1;
    }
    assert(stack@.layers.take(i as int) =~= stack@.layers);
    n
}

/// The header line of group `g`: see `header_text`.
pub fn header_label(stack: &LayerStack, g: usize) -> (r: String)
    requires
        g < stack@.groups.len(),
    ensures
        r@ == header_text(stack@.groups[g as int], group_size(stack@.layers, g)),
{
    let count = group_count(stack, g);
    let grp = &stack.groups[g];
    assert(stack@.groups[g as int] == grp@);
    let mut t = String::new();
    push_char(&mut t, ' ');
    push_char(&mut t, if grp.collapsed { '\u{25b6}' } else { '\u{25bc}' });
    push_char(&mut t, ' ');
    push_str(&mut t, grp.name.as_str());
    push_char(&mut t, ' ');
    push_char(&mut t, '(');
    push_decimal(&mut t, count);
    push_char(&mut t, ')');
    assert(t@ =~= header_text(stack@.groups[g as int], group_size(stack@.layers, g)));
    t
}

/// An opacity as a whole percentage: see `opacity_percent`.
pub fn opacity_percent_of(o: u8) -> (r: u8)
    ensures
        r == opacity_percent(o),
{
    let n: u32 = (200 * (o as u32) + 255) / 510;
    assert(n <= 100);
    n as u8
}

fn attr_body_label(l: &crate::layers::Layer, width: u16, icons: &Vec<(String, String)>) -> (r: String)
    ensures
        r@ == attr_body(l@, width, icons_view(icons@)),
{
    let pct = opacity_percent_of(l.opacity);
    let mut t = String::new();
    if width >= 8 {
        let vis = if l.visible {
            icon_lookup(icons, "layer_visibility_on", "V")
        } else {
            icon_lookup(icons, "layer_visibility_off", "_")
        };
        let lock = if l.locked {
            icon_lookup(icons, "layer_lock", "L")
        } else {
            icon_lookup(icons, "layer_unlock", "U")
        };
        let blend = icon_lookup(icons, l.blend_mode.icon_key(), l.blend_mode.display_name());
        push_str(&mut t, vis.as_str());
        push_char(&mut t, ' ');
        push_char(&mut t, ' ');
        push_str(&mut t, lock.as_str());
        push_char(&mut t, ' ');
        push_char(&mut t, ' ');
        let ghost mid = t@;
        push_decimal(&mut t, pct as usize);
        push_char(&mut t, '%');
        push_char(&mut t, ' ');
        push_char(&mut t, ' ');
        push_str(&mut t, blend.as_str());
        assert(t@ =~= mid + decimal(opacity_percent(l.opacity)) + seq!['%', ' ', ' '] + blend@);
    } else {
        push_char(&mut t, if l.visible { 'V' } else { '_' });
        push_char(&mut t, if l.locked { 'L' } else { '_' });
        push_char(&mut t, ' ');
        push_decimal(&mut t, pct as usize);
        push_char(&mut t, '%');
    }
    assert(t@ =~= attr_body(l@, width, icons_view(icons@)));
    t
}

/// The second line of layer `idx`: see `attr_text`.
pub fn attr_label(stack: &LayerStack, idx: usize, width: u16, icons: &Vec<(String, String)>) -> (r: String)
    requires
        idx < stack@.layers.len(),
    ensures
        r@ == attr_text(stack@.layers[idx as int], width, icons_view(icons@)),
{
    let l = &stack.layers[idx];
    assert(stack@.layers[idx as int] == l@);
    let body = attr_body_label(l, width, icons);
    let mut t = String::new();
    if l.group.is_some() {
        push_char(&mut t, ' ');
        push_char(&mut t, ' ');
    }
    push_str(&mut t, body.as_str());
    if l.link.is_some() {
        push_char(&mut t, ' ');
        push_char(&mut t, '\u{1f517}');
    }
    assert(t@ =~= attr_text(stack@.layers[idx as int], width, icons_view(icons@)));
    t
}

impl LayerPanel {
    /// The first line of layer `idx`: see `name_text`.
    pub fn name_label(&self, stack: &LayerStack, idx: usize, width: u16) -> (r: String)
        requires
            idx < stack@.layers.len(),
        ensures
            r@ == name_text(*self, stack@, idx, width),
    {
        let l = &stack.layers[idx];
        assert(stack@.layers[idx as int] == l@);
        let grouped = l.group.is_some();
        let used: u16 = if grouped { 7 } else { 5 };
        let room: u16 = if width >= used && width - used >= 4 { width - used } else { 4 };
        let shown = if self.renaming == Some(idx) {
            let mut b = copy_string(self.rename_buffer.as_str());
            push_char(&mut b, '\u{2588}');
            b
        } else {
            copy_string(l.name.as_str())
        };
        let cut = truncate_str(shown.as_str(), room as usize);
        let mut t = String::new();
        if grouped {
            push_char(&mut t, ' ');
            push_char(&mut t, ' ');
        }
        push_char(&mut t, '\u{283f}');
        push_char(&mut t, ' ');
        push_char(&mut t, if idx == stack.active { '\u{203a}' } else { ' ' });
        push_char(&mut t, ' ');
        push_str(&mut t, cut.as_str());
        assert(t@ =~= name_text(*self, stack@, idx, width));
        t
    }

    /// The text lines the list shows in `visible` rows of a panel `width`
    /// cells wide, top to bottom: see `shown_lines`.
    pub fn list_lines(&self, stack: &LayerStack, width: u16, visible: usize, icons: &Vec<(String, String)>) -> (r: Vec<String>)
        ensures
            crate::text::strings_view(r@) == shown_lines(*self, stack@, width, icons_view(icons@), visible as nat),
    {
        let rows = LayerPanel::rows(stack);
        proof {
            lemma_rows_valid(stack@, 0, Set::empty());
        }
        let ghost icv = icons_view(icons@);
        let mut all: Vec<String> = Vec::new();
        let mut k: usize = 0;
        while k < rows.len()
            invariant
                rows@ == panel_rows(stack@),
                forall|j: int| 0 <= j < rows@.len() ==> row_valid(stack@, #[trigger] rows@[j]),
                icv == icons_view(icons@),
                k <= rows@.len(),
                crate::text::strings_view(all@) == all_lines(*self, stack@, width, icv, rows@.take(k as int)),
            decreases rows@.len() - k,
        {
            assert(rows@.take(k + 1).drop_last() =~= rows@.take(k as int));
            assert(rows@.take(k + 1).last() == rows@[k as int]);
            assert(row_valid(stack@, rows@[k as int]));
            let ghost before = crate::text::strings_view(all@);
            match rows[k] {
                PanelRow::GroupHeader(g) => {
                    let h = header_label(stack, g);
                    all.push(h);
                },
                PanelRow::Layer(i) => {
                    let a = self.name_label(stack, i, width);
                    let b = attr_label(stack, i, width, icons);
                    all.push(a);
                    all.push(b);
                },
            }
            assert(crate::text::strings_view(all@) =~= before + line_texts(*self, stack@, width, icv, rows@[k as int]));
            k = k + 1;
        }
        assert(rows@.take(k as int) =~= rows@);
        let n = all.len();
        let start: usize = if (self.scroll as usize) <= n { self.scroll as usize } else { n };
        let end: usize = if visible <= n - start { start + visible } else { n };
        let mut out: Vec<String> = Vec::new();
        let mut i: usize = start;
        while i < end
            invariant
                start <= i <= end <= n,
                n == all@.len(),
                crate::text::strings_view(out@) == crate::text::strings_view(all@).subrange(start as int, i as int),
            decreases end - i,
        {
            let ghost prev = crate::text::strings_view(out@);
            let c = copy_string(all[i].as_str());
            out.push(c);
            assert(crate::text::strings_view(out@) =~= prev.push(all@[i as int]@));
            i = i + 1;
            assert(crate::text::strings_view(out@) =~= crate::text::strings_view(all@).subrange(start as int, i as int));
        }
        out
    }

    /// The scroll marks of the list in `visible` rows: see
    /// `scroll_marks_of`.
    pub fn scroll_marks(&self, stack: &LayerStack, visible: usize) -> (r: (bool, bool))
        ensures
            r == scroll_marks_of(*self, stack@, visible as nat),
    {
        let rows = LayerPanel::rows(stack);
        let mut total: u128 = 0;
        let mut k: usize = 0;
        while k < rows.len()
            invariant
                rows@ == panel_rows(stack@),
                k <= rows@.len(),
                total <= 2 * k,
                total == all_lines(*self, stack@, 0, Seq::empty(), rows@.take(k as int)).len(),
            decreases rows@.len() - k,
        {
            assert(rows@.take(k + 1).drop_last() =~= rows@.take(k as int));
            assert(rows@.take(k + 1).last() == rows@[k as int]);
            let h: u128 = match rows[k] {
                PanelRow::GroupHeader(_) => 1,
                PanelRow::Layer(_) => 2,
            };
            total = total + h;
            k = k + 1;
        }
        assert(rows@.take(k as int) =~= rows@);
        (self.scroll > 0, total > (self.scroll as u128) + (visible as u128))
    }
}

} // verus!
