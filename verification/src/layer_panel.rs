use vstd::prelude::*;

use crate::font_editor::popped;
use crate::keys::{KeyCode, KeyModifiers, MOD_ALT, MOD_CONTROL, MOD_SHIFT};
use crate::keymap::MOD_CONTROL_SHIFT;
use crate::layout::{block_inner, bordered_inner, Area};
use crate::layers::{
    LayerButton, active_after_delete, active_after_reorder, moved, active_after_swap, all_below, group_members, is_merge, lock_toggled, relinked,
    same_but_group, same_but_link, same_but_mask, same_props, shift_after_remove, surviving_links,
    swap_adjacent, visibility_toggled, BlendMode, GroupModel, LayerModel, LayerStack, MaskModel,
    StackModel,
};
use crate::text::{copy_string, decimal, is_blank_text, pop_char, push_char, push_decimal, push_str, trim, trimmed};

verus! {

/// Alt and Shift together.
pub const MOD_ALT_SHIFT: u8 = 5;

/// The layer panel's own state: the scroll offset, the layer being renamed
/// with the name typed so far, and the first layer picked for a link.
pub struct LayerPanel {
    pub scroll: u16,
    pub renaming: Option<usize>,
    pub rename_buffer: String,
    pub link_pending: Option<usize>,
    /// The layer being dragged and the layer it would move to.
    pub drag_state: Option<(usize, usize)>,
    /// The layer under the pointer while dragging.
    pub drag_hover_row: Option<usize>,
    /// Where each toolbar button was laid out (see `layout`).
    pub button_rects: Vec<(LayerButton, Area)>,
}

/// A line of the layer list, from the top: a group's header (one row) or
/// a layer (two rows).
#[derive(Debug, Clone, Copy, PartialEq, Eq, Structural)]
pub enum PanelRow {
    GroupHeader(usize),
    Layer(usize),
}

/// The number of terminal rows a line takes.
pub open spec fn row_height(r: PanelRow) -> nat {
    match r {
        PanelRow::GroupHeader(_) => 1,
        PanelRow::Layer(_) => 2,
    }
}

/// The lines for the layers from the `rev`-th from the top down, when the
/// headers of the groups in `emitted` are already shown: a group's header
/// comes before its topmost layer, and that layer is left out while the
/// group is folded.
pub open spec fn rows_from(s: StackModel, rev: nat, emitted: Set<usize>) -> Seq<PanelRow>
    decreases s.layers.len() - rev,
{
    if rev >= s.layers.len() {
        Seq::empty()
    } else {
        let idx = (s.layers.len() - 1 - rev) as usize;
        match s.layers[idx as int].group {
            Some(g) => if g < s.groups.len() && !emitted.contains(g) {
                if s.groups[g as int].collapsed {
                    seq![PanelRow::GroupHeader(g)] + rows_from(s, rev + 1, emitted.insert(g))
                } else {
                    seq![PanelRow::GroupHeader(g), PanelRow::Layer(idx)] + rows_from(s, rev + 1, emitted.insert(g))
                }
            } else {
                seq![PanelRow::Layer(idx)] + rows_from(s, rev + 1, emitted)
            },
            None => seq![PanelRow::Layer(idx)] + rows_from(s, rev + 1, emitted),
        }
    }
}

/// The lines of the layer list.
pub open spec fn panel_rows(s: StackModel) -> Seq<PanelRow> {
    rows_from(s, 0, Set::empty())
}

/// The line at terminal row `r`, counting from line `k`.
pub open spec fn row_at(rows: Seq<PanelRow>, k: int, r: nat) -> Option<PanelRow>
    decreases rows.len() - k,
{
    if k < 0 || k >= rows.len() {
        None
    } else if r < row_height(rows[k]) {
        Some(rows[k])
    } else {
        row_at(rows, k + 1, (r - row_height(rows[k])) as nat)
    }
}

/// The first row of layer `idx`'s line, counting from line `k` at row
/// `base`; `base` for a layer without a line.
pub open spec fn layer_row(rows: Seq<PanelRow>, idx: usize, k: int, base: nat) -> nat
    decreases rows.len() - k,
{
    if k < 0 || k >= rows.len() {
        base
    } else if rows[k] == PanelRow::Layer(idx) {
        base
    } else {
        layer_row(rows, idx, k + 1, base + row_height(rows[k]))
    }
}

/// The layer a click at (`col`, `row`) lands on, in the panel drawn in
/// `area` with the list scrolled by `scroll`: below the toolbar row, the
/// line under the pointer when it is a layer.
pub open spec fn layer_at(scroll: u16, col: u16, row: u16, area: Area, s: StackModel) -> Option<usize> {
    let inner = bordered_inner(area);
    if row < inner.y + 1 || col < inner.x {
        None
    } else {
        match row_at(panel_rows(s), 0, ((row - inner.y - 1) + scroll) as nat) {
            Some(PanelRow::Layer(i)) => Some(i),
            _ => None,
        }
    }
}

/// The groups whose header is flagged in `v`.
pub open spec fn flagged(v: Seq<bool>) -> Set<usize> {
    Set::new(|g: usize| g < v.len() && v[g as int])
}

impl LayerPanel {
    /// The lines of the layer list for `stack`: see `panel_rows`.
    pub fn rows(stack: &LayerStack) -> (r: Vec<PanelRow>)
        ensures
            r@ == panel_rows(stack@),
            r@.len() <= 2 * stack@.layers.len(),
    {
        let n = stack.layers.len();
        let mut emitted: Vec<bool> = Vec::new();
        let mut j: usize = 0;
        while j < stack.groups.len()
            invariant
                j <= stack@.groups.len(),
                emitted@.len() == j,
                forall|k: int| 0 <= k < j ==> !(#[trigger] emitted@[k]),
            decreases stack@.groups.len() - j,
        {
            emitted.push(false);
            j = j + 1;
        }
        assert(flagged(emitted@) =~= Set::<usize>::empty());
        let mut out: Vec<PanelRow> = Vec::new();
        let mut rev: usize = 0;
        assert(out@ + rows_from(stack@, 0, flagged(emitted@)) =~= panel_rows(stack@));
        while rev < n
            invariant
                n == stack@.layers.len(),
                rev <= n,
                emitted@.len() == stack@.groups.len(),
                out@ + rows_from(stack@, rev as nat, flagged(emitted@)) == panel_rows(stack@),
                out@.len() <= 2 * rev,
            decreases n - rev,
        {
            let top = n - 1 - rev;
            let ghost before = out@;
            let ghost e = flagged(emitted@);
            assert(stack@.layers[top as int] == stack.layers@[top as int]@);
            let grp = stack.layers[top].group;
            let mut header = false;
            match grp {
                Some(g) => {
                    if g < emitted.len() && !emitted[g] {
                        header = true;
                        emitted.set(g, true);
                        assert(flagged(emitted@) =~= e.insert(g));
                        out.push(PanelRow::GroupHeader(g));
                        assert(stack@.groups[g as int] == stack.groups@[g as int]@);
                        if !stack.groups[g].collapsed {
                            out.push(PanelRow::Layer(top));
                        }
                    }
                },
                None => {},
            }
            if !header {
                out.push(PanelRow::Layer(top));
            }
            proof {
                let tail = rows_from(stack@, (rev + 1) as nat, flagged(emitted@));
                assert(out@ + tail =~= before + rows_from(stack@, rev as nat, e));
            }
            rev = rev + 1;
        }
        assert(rows_from(stack@, rev as nat, flagged(emitted@)) =~= Seq::<PanelRow>::empty());
        assert(out@ =~= out@ + Seq::<PanelRow>::empty());
        out
    }
}

fn find_row(rows: &Vec<PanelRow>, r: usize) -> (found: Option<PanelRow>)
    ensures
        found == row_at(rows@, 0, r as nat),
{
    let mut k: usize = 0;
    let mut rem: usize = r;
    while k < rows.len()
        invariant
            k <= rows@.len(),
            rem <= r,
            row_at(rows@, 0, r as nat) == row_at(rows@, k as int, rem as nat),
        decreases rows@.len() - k,
    {
        let h: usize = match rows[k] {
            PanelRow::GroupHeader(_) => 1,
            PanelRow::Layer(_) => 2,
        };
        if rem < h {
            return Some(rows[k]);
        }
        rem = rem - h;
        k = k + 1;
    }
    None
}

// What each stack operation a panel key triggers does to the stack.

/// `move_up(i)`: the layer swaps with the one above it, if there is one.
pub open spec fn moved_up(s: StackModel, t: StackModel, i: int) -> bool {
    if i + 1 < s.layers.len() {
        &&& t.layers == swap_adjacent(s.layers, i)
        &&& t.active == active_after_swap(s.active, i as nat)
        &&& t.groups == s.groups
        &&& t.links == s.links
    } else {
        t == s
    }
}

/// `move_down(i)`: the layer swaps with the one below it, if there is one.
pub open spec fn moved_down(s: StackModel, t: StackModel, i: int) -> bool {
    if 0 < i < s.layers.len() {
        &&& t.layers == swap_adjacent(s.layers, i - 1)
        &&& t.active == active_after_swap(s.active, (i - 1) as nat)
        &&& t.groups == s.groups
        &&& t.links == s.links
    } else {
        t == s
    }
}

/// `toggle_visibility(i)`: the layer's visibility flips, and its link
/// follows.
pub open spec fn visibility_flipped(s: StackModel, t: StackModel, i: int) -> bool {
    &&& t.active == s.active && t.groups == s.groups && t.links == s.links
    &&& if 0 <= i < s.layers.len() {
        &&& t.layers.len() == s.layers.len()
        &&& forall|j: int| 0 <= j < t.layers.len() ==> #[trigger] t.layers[j] == visibility_toggled(s, i, j)
    } else {
        t == s
    }
}

/// `toggle_lock(i)`: the layer's lock flips, and its link follows.
pub open spec fn lock_flipped(s: StackModel, t: StackModel, i: int) -> bool {
    &&& t.active == s.active && t.groups == s.groups && t.links == s.links
    &&& if 0 <= i < s.layers.len() {
        &&& t.layers.len() == s.layers.len()
        &&& forall|j: int| 0 <= j < t.layers.len() ==> #[trigger] t.layers[j] == lock_toggled(s, i, j)
    } else {
        t == s
    }
}

/// Only layer `i` changed, into `l`.
pub open spec fn layer_replaced(s: StackModel, t: StackModel, i: int, l: LayerModel) -> bool {
    &&& t.layers == s.layers.update(i, l)
    &&& t.active == s.active && t.groups == s.groups && t.links == s.links
}

/// `add(w, h)`: a fresh layer named after its position goes on top and
/// becomes active.
pub open spec fn layer_added(s: StackModel, t: StackModel, w: nat, h: nat) -> bool {
    let idx = s.layers.len();
    &&& t.layers.len() == idx + 1
    &&& t.layers.subrange(0, idx as int) == s.layers
    &&& t.layers[idx as int].is_fresh(w, h, "Layer "@ + decimal(idx + 1))
    &&& t.active == idx
    &&& t.groups == s.groups && t.links == s.links
}

/// `duplicate(i)`: a copy of the layer goes on top and becomes active.
pub open spec fn layer_duplicated(s: StackModel, t: StackModel, i: int) -> bool {
    if 0 <= i < s.layers.len() {
        &&& t.layers == s.layers.push(s.layers[i])
        &&& t.active == s.layers.len()
        &&& t.groups == s.groups && t.links == s.links
    } else {
        t == s
    }
}

/// `delete(i)`: the layer goes unless it is the last one.
pub open spec fn layer_deleted(s: StackModel, t: StackModel, i: int) -> bool {
    if 0 <= i < s.layers.len() && s.layers.len() > 1 {
        &&& t.layers == s.layers.remove(i)
        &&& t.active == active_after_delete(s.active, i as nat, s.layers.len())
        &&& t.groups == s.groups && t.links == s.links
    } else {
        t == s
    }
}

/// `merge_down(i)`: an unlocked layer is merged into the one below, which
/// becomes active.
pub open spec fn layer_merged_down(s: StackModel, t: StackModel, i: int) -> bool {
    if 0 < i < s.layers.len() && !s.layers[i].locked {
        let below = s.layers[i - 1];
        let above = s.layers[i];
        &&& t.layers.len() == s.layers.len() - 1
        &&& forall|k: int| 0 <= k < t.layers.len() && k != i - 1 ==> #[trigger] t.layers[k] == s.layers.remove(i)[k]
        &&& same_props(t.layers[i - 1], below)
        &&& is_merge(t.layers[i - 1].grid, below.grid, above.grid)
        &&& t.active == i - 1
        &&& t.groups == s.groups && t.links == s.links
    } else {
        t == s
    }
}

/// `create_group(indices, name)`: a new open group holding those layers.
pub open spec fn group_created(s: StackModel, t: StackModel, indices: Seq<usize>, name: Seq<char>) -> bool {
    if indices.len() > 0 && all_below(indices, s.layers.len()) {
        &&& t.groups == s.groups.push(GroupModel { name: name, collapsed: false })
        &&& t.layers.len() == s.layers.len()
        &&& forall|i: int| 0 <= i < t.layers.len() ==> {
            &&& same_but_group(#[trigger] t.layers[i], s.layers[i])
            &&& t.layers[i].group == (if indices.contains(i as usize) {
                Some(s.groups.len() as usize)
            } else {
                s.layers[i].group
            })
        }
        &&& t.active == s.active && t.links == s.links
    } else {
        t == s
    }
}

/// `remove_group(g)`: the group goes; its layers leave it and later groups
/// move down by one.
pub open spec fn group_removed(s: StackModel, t: StackModel, g: usize) -> bool {
    if g < s.groups.len() {
        &&& t.groups == s.groups.remove(g as int)
        &&& t.layers.len() == s.layers.len()
        &&& forall|i: int| 0 <= i < t.layers.len() ==> {
            &&& same_but_group(#[trigger] t.layers[i], s.layers[i])
            &&& t.layers[i].group == shift_after_remove(s.layers[i].group, g)
        }
        &&& t.active == s.active && t.links == s.links
    } else {
        t == s
    }
}

/// Group `g` folded (`collapsed`) or unfolded.
pub open spec fn group_folded(s: StackModel, t: StackModel, g: usize, collapsed: bool) -> bool {
    &&& t.groups == s.groups.update(g as int, GroupModel { name: s.groups[g as int].name, collapsed: collapsed })
    &&& t.layers == s.layers && t.active == s.active && t.links == s.links
}

/// `rename(i, name)`: a name of only white space, or a missing layer, is
/// refused.
pub open spec fn layer_renamed(s: StackModel, t: StackModel, i: int, name: Seq<char>) -> bool {
    if !is_blank_text(name) && 0 <= i < s.layers.len() {
        layer_replaced(s, t, i, LayerModel { name: name, ..s.layers[i] })
    } else {
        t == s
    }
}

/// `link_layers(indices)`: those layers leave their links and form a new
/// one.
pub open spec fn layers_linked(s: StackModel, t: StackModel, indices: Seq<usize>) -> bool {
    if indices.len() >= 2 && all_below(indices, s.layers.len()) {
        let kept = surviving_links(s, indices, s.links.len());
        &&& t.links == kept.push(indices)
        &&& t.layers.len() == s.layers.len()
        &&& forall|i: int| 0 <= i < t.layers.len() ==> {
            &&& same_but_link(#[trigger] t.layers[i], s.layers[i])
            &&& t.layers[i].link == (if indices.contains(i as usize) {
                Some(kept.len() as usize)
            } else {
                relinked(s, indices, s.layers[i].link)
            })
        }
        &&& t.active == s.active && t.groups == s.groups
    } else {
        t == s
    }
}

/// `toggle_mask(i)`: a mask is removed, or a blank enabled one added.
pub open spec fn mask_flipped(s: StackModel, t: StackModel, i: int) -> bool {
    if 0 <= i < s.layers.len() {
        let l = s.layers[i];
        let n = t.layers[i];
        &&& t.layers.len() == s.layers.len()
        &&& forall|k: int| 0 <= k < t.layers.len() && k != i ==> #[trigger] t.layers[k] == s.layers[k]
        &&& same_but_mask(n, l)
        &&& l.mask.is_some() ==> n.mask.is_none()
        &&& l.mask.is_none() ==> (n.mask matches Some(m) && m.enabled && m.grid.is_blank(l.grid.width, l.grid.height))
        &&& t.active == s.active && t.groups == s.groups && t.links == s.links
    } else {
        t == s
    }
}

/// `toggle_mask_enabled(i)`: the mask of the layer is switched on or off.
pub open spec fn mask_switched(s: StackModel, t: StackModel, i: int) -> bool {
    if 0 <= i < s.layers.len() && s.layers[i].mask.is_some() {
        let l = s.layers[i];
        let m = l.mask.unwrap();
        layer_replaced(s, t, i, LayerModel { mask: Some(MaskModel { grid: m.grid, enabled: !m.enabled }), ..l })
    } else {
        t == s
    }
}

/// The index of the last layer below `k` that belongs to a group.
pub open spec fn last_grouped_before(layers: Seq<LayerModel>, k: int) -> Option<usize>
    decreases k,
{
    if k <= 0 {
        None
    } else if layers[k - 1].group is Some {
        Some((k - 1) as usize)
    } else {
        last_grouped_before(layers, k - 1)
    }
}

/// The index of the first layer at or above `k` that belongs to a group.
pub open spec fn first_grouped_from(layers: Seq<LayerModel>, k: int) -> Option<usize>
    decreases layers.len() - k,
{
    if k < 0 || k >= layers.len() {
        None
    } else if layers[k].group is Some {
        Some(k as usize)
    } else {
        first_grouped_from(layers, k + 1)
    }
}

/// The first of `members`, from position `i` on, that is greater than `x`.
pub open spec fn first_after(members: Seq<usize>, x: usize, i: int) -> Option<usize>
    decreases members.len() - i,
{
    if i < 0 || i >= members.len() {
        None
    } else if members[i] > x {
        Some(members[i])
    } else {
        first_after(members, x, i + 1)
    }
}

/// The layer Alt+Tab moves to: inside a group, the next member (past the
/// last one, the layer above the group); outside any group, the nearest
/// grouped layer below, else the nearest above. `None` stays.
pub open spec fn group_step(s: StackModel) -> Option<usize> {
    let a = s.active as int;
    match (if a < s.layers.len() { s.layers[a].group } else { None }) {
        Some(g) => {
            let members = group_members(s.layers, g, s.layers.len());
            if members.len() == 0 {
                None
            } else if a == members.last() {
                if members.last() + 1 < s.layers.len() {
                    Some((members.last() + 1) as usize)
                } else {
                    None
                }
            } else {
                first_after(members, a as usize, 0)
            }
        },
        None => match last_grouped_before(s.layers, a) {
            Some(i) => Some(i),
            None => first_grouped_from(s.layers, a + 1),
        },
    }
}

/// `o + 25`, at most 255.
pub open spec fn opacity_up(o: u8) -> u8 {
    if o + 25 > 255 {
        255
    } else {
        (o + 25) as u8
    }
}

/// `o - 25`, at least 0.
pub open spec fn opacity_down(o: u8) -> u8 {
    if o < 25 {
        0
    } else {
        (o - 25) as u8
    }
}

/// Begin a link with the active layer, give it up when the active layer is
/// the one it began with, or link the two.
pub open spec fn link_step(pre: LayerPanel, post: LayerPanel, s: StackModel, t: StackModel) -> bool {
    let a = s.active as int;
    match pre.link_pending {
        None => post == (LayerPanel { link_pending: Some(a as usize), ..pre }) && t == s,
        Some(from) => post == (LayerPanel { link_pending: None, ..pre }) && if from == a {
            t == s
        } else {
            layers_linked(s, t, seq![from, a as usize])
        },
    }
}

/// What a character key does outside renaming.
pub open spec fn panel_char_post(pre: LayerPanel, post: LayerPanel, s: StackModel, t: StackModel, c: char, m: KeyModifiers, used: bool) -> bool {
    let a = s.active as int;
    let l = s.layers[a];
    let quiet = post == pre;
    if c == ' ' {
        used && quiet && visibility_flipped(s, t, a)
    } else if c == 'l' {
        used && quiet && lock_flipped(s, t, a)
    } else if c == 'L' {
        used && quiet && if a < s.layers.len() {
            layer_replaced(s, t, a, LayerModel { accepts_lighting: !l.accepts_lighting, ..l })
        } else {
            t == s
        }
    } else if c == 'S' && m.bits == MOD_ALT {
        used && quiet && if a < s.layers.len() {
            layer_replaced(s, t, a, LayerModel { casts_shadow: !l.casts_shadow, ..l })
        } else {
            t == s
        }
    } else if c == '+' || c == '=' {
        used && quiet && layer_replaced(s, t, a, LayerModel { opacity: opacity_up(l.opacity), ..l })
    } else if c == '-' || c == '_' {
        used && quiet && layer_replaced(s, t, a, LayerModel { opacity: opacity_down(l.opacity), ..l })
    } else if c == 'n' || c == 'N' {
        used && quiet && layer_added(s, t, s.layers[0].grid.width, s.layers[0].grid.height)
    } else if c == 'd' || c == 'D' {
        used && quiet && layer_duplicated(s, t, a)
    } else if c == 'x' || c == 'X' {
        used && quiet && layer_deleted(s, t, a)
    } else if c == 'g' && m.bits == MOD_CONTROL {
        used && quiet && group_created(s, t, seq![a as usize], "Group "@ + decimal(s.groups.len() + 1))
    } else if c == 'g' && m.bits == MOD_CONTROL_SHIFT {
        used && quiet && match (if a < s.layers.len() { l.group } else { None }) {
            Some(g) => group_removed(s, t, g),
            None => t == s,
        }
    } else if c == 'k' || c == 'K' {
        used && link_step(pre, post, s, t)
    } else if c == 'M' {
        used && quiet && mask_flipped(s, t, a)
    } else if c == 'm' {
        used && quiet && if a < s.layers.len() && l.mask.is_some() {
            mask_switched(s, t, a)
        } else {
            layer_merged_down(s, t, a)
        }
    } else if c == ',' {
        used && quiet && moved_up(s, t, a)
    } else if c == '.' {
        used && quiet && moved_down(s, t, a)
    } else if c == 'b' {
        used && quiet && layer_replaced(s, t, a, LayerModel { blend_mode: l.blend_mode.spec_next(), ..l })
    } else if c == 'B' {
        used && quiet && layer_replaced(s, t, a, LayerModel { blend_mode: l.blend_mode.spec_prev(), ..l })
    } else {
        !used && quiet && t == s
    }
}

/// What a key does while a layer is being renamed: Enter renames it to the
/// trimmed text, Esc gives up, Backspace and characters edit the text; the
/// key is always taken.
pub open spec fn rename_key_post(pre: LayerPanel, post: LayerPanel, s: StackModel, t: StackModel, code: KeyCode, idx: usize) -> bool {
    match code {
        KeyCode::Enter => {
            &&& layer_renamed(s, t, idx as int, trimmed(pre.rename_buffer@))
            &&& post == (LayerPanel { renaming: None, rename_buffer: post.rename_buffer, ..pre })
            &&& post.rename_buffer@.len() == 0
        },
        KeyCode::Esc => {
            &&& t == s
            &&& post == (LayerPanel { renaming: None, rename_buffer: post.rename_buffer, ..pre })
            &&& post.rename_buffer@.len() == 0
        },
        KeyCode::Backspace => {
            &&& t == s
            &&& post == (LayerPanel { rename_buffer: post.rename_buffer, ..pre })
            &&& post.rename_buffer@ == popped(pre.rename_buffer@)
        },
        KeyCode::Char(c) => {
            &&& t == s
            &&& post == (LayerPanel { rename_buffer: post.rename_buffer, ..pre })
            &&& post.rename_buffer@ == pre.rename_buffer@.push(c)
        },
        _ => t == s && post == pre,
    }
}

/// The keys the panel can take outside renaming: the opacity and blend
/// keys need the active layer, `n` a layer to take the size from, and
/// Alt+Tab among groups an active index at most one past the top layer;
/// the keys that move the layer up, or the selection down, an active index
/// that can be counted past.
pub open spec fn panel_key_safe(s: StackModel, code: KeyCode, m: KeyModifiers) -> bool {
    match code {
        KeyCode::Char(c) => {
            &&& (c == '+' || c == '=' || c == '-' || c == '_' || c == 'b' || c == 'B') ==> s.active < s.layers.len()
            &&& (c == 'n' || c == 'N') ==> s.layers.len() > 0
            &&& c == ',' ==> s.active < usize::MAX
        },
        KeyCode::Up => m.bits == MOD_ALT_SHIFT ==> s.active < usize::MAX,
        KeyCode::Down => m.bits == MOD_ALT ==> s.active < usize::MAX,
        KeyCode::Tab => (m.bits == MOD_ALT && s.groups.len() > 0) ==> s.active <= s.layers.len(),
        _ => true,
    }
}

/// What a key with `m` held does to the panel and to the stack (`s` before,
/// `t` after), and whether it was taken.
pub open spec fn panel_key_post(pre: LayerPanel, post: LayerPanel, s: StackModel, t: StackModel, code: KeyCode, m: KeyModifiers, used: bool) -> bool {
    let a = s.active as int;
    let quiet = post == pre;
    let unused = !used && quiet && t == s;
    match pre.renaming {
        Some(idx) => used && rename_key_post(pre, post, s, t, code, idx),
        None => match code {
            KeyCode::F(n) => if n == 2 {
                &&& used && t == s
                &&& post == (LayerPanel { renaming: Some(a as usize), rename_buffer: post.rename_buffer, ..pre })
                &&& post.rename_buffer@ == (if a < s.layers.len() { s.layers[a].name } else { Seq::empty() })
            } else {
                unused
            },
            KeyCode::Up => if m.bits == MOD_ALT_SHIFT {
                used && quiet && moved_up(s, t, a)
            } else if m.bits == MOD_ALT {
                used && quiet && t == (if a > 0 { StackModel { active: (a - 1) as nat, ..s } } else { s })
            } else {
                unused
            },
            KeyCode::Down => if m.bits == MOD_ALT_SHIFT {
                used && quiet && moved_down(s, t, a)
            } else if m.bits == MOD_ALT {
                used && quiet && t == (if a + 1 < s.layers.len() { StackModel { active: (a + 1) as nat, ..s } } else { s })
            } else {
                unused
            },
            KeyCode::Enter => used && quiet && visibility_flipped(s, t, a),
            KeyCode::Delete => used && quiet && layer_deleted(s, t, a),
            KeyCode::Right => if m.bits == MOD_ALT && a < s.layers.len() && (s.layers[a].group matches Some(g) && g < s.groups.len()) {
                used && quiet && group_folded(s, t, s.layers[a].group.unwrap(), false)
            } else {
                unused
            },
            KeyCode::Left => if m.bits == MOD_ALT && a < s.layers.len() && (s.layers[a].group matches Some(g) && g < s.groups.len()) {
                used && quiet && group_folded(s, t, s.layers[a].group.unwrap(), true)
            } else {
                unused
            },
            KeyCode::Tab => if m.bits == MOD_ALT && s.groups.len() > 0 {
                used && quiet && t == (match group_step(s) {
                    Some(i) => StackModel { active: i as nat, ..s },
                    None => s,
                })
            } else {
                unused
            },
            KeyCode::Char(c) => panel_char_post(pre, post, s, t, c, m, used),
            _ => unused,
        },
    }
}

proof fn lemma_members_below(layers: Seq<LayerModel>, g: usize, n: nat)
    ensures
        forall|k: int| 0 <= k < group_members(layers, g, n).len() ==> #[trigger] group_members(layers, g, n)[k] < n,
    decreases n,
{
    if n > 0 {
        lemma_members_below(layers, g, (n - 1) as nat);
        let rest = group_members(layers, g, (n - 1) as nat);
        assert forall|k: int| 0 <= k < group_members(layers, g, n).len() implies #[trigger] group_members(layers, g, n)[k] < n by {
            if k < rest.len() {
                assert(group_members(layers, g, n)[k] == rest[k]);
            }
        }
    }
}

fn find_grouped_before(stack: &LayerStack, k: usize) -> (r: Option<usize>)
    requires
        k <= stack@.layers.len(),
    ensures
        r == last_grouped_before(stack@.layers, k as int),
    decreases k,
{
    if k == 0 {
        return None;
    }
    assert(stack@.layers[k - 1] == stack.layers@[k - 1]@);
    if stack.layers[k - 1].group.is_some() {
        Some(k - 1)
    } else {
        find_grouped_before(stack, k - 1)
    }
}

fn find_grouped_from(stack: &LayerStack, k: usize) -> (r: Option<usize>)
    ensures
        r == first_grouped_from(stack@.layers, k as int),
    decreases stack@.layers.len() - k,
{
    if k >= stack.layers.len() {
        return None;
    }
    assert(stack@.layers[k as int] == stack.layers@[k as int]@);
    if stack.layers[k].group.is_some() {
        Some(k)
    } else {
        find_grouped_from(stack, k + 1)
    }
}

fn find_after(members: &Vec<usize>, x: usize, i: usize) -> (r: Option<usize>)
    ensures
        r == first_after(members@, x, i as int),
    decreases members@.len() - i,
{
    if i >= members.len() {
        return None;
    }
    if members[i] > x {
        Some(members[i])
    } else {
        find_after(members, x, i + 1)
    }
}

/// "Group " and a number.
fn group_name(n: usize) -> (s: String)
    ensures
        s@ == "Group "@ + decimal(n as nat),
{
    let mut s = String::new();
    push_str(&mut s, "Group ");
    push_decimal(&mut s, n);
    proof {
        reveal_strlit("Group ");
    }
    s
}

impl LayerPanel {
    /// A panel scrolled to the top, renaming nothing, with no link begun.
    pub fn new() -> (p: LayerPanel)
        ensures
            p.scroll == 0,
            p.renaming is None,
            p.rename_buffer@.len() == 0,
            p.link_pending is None,
            p.drag_state is None,
            p.drag_hover_row is None,
            p.button_rects@.len() == 0,
    {
        LayerPanel {
            scroll: 0,
            renaming: None,
            rename_buffer: String::new(),
            link_pending: None,
            drag_state: None,
            drag_hover_row: None,
            button_rects: Vec::new(),
        }
    }

    /// The layer Alt+Tab moves to: see `group_step`.
    fn group_step(stack: &LayerStack) -> (r: Option<usize>)
        requires
            stack@.active <= stack@.layers.len(),
            stack@.layers.len() < usize::MAX,
        ensures
            r == group_step(stack@),
    {
        let a = stack.active;
        if a < stack.layers.len() {
            assert(stack@.layers[a as int] == stack.layers@[a as int]@);
        }
        match stack.group_of_layer(a) {
            Some(g) => {
                let members = stack.layers_in_group(g);
                let n = members.len();
                proof {
                    lemma_members_below(stack@.layers, g, stack@.layers.len());
                }
                if n == 0 {
                    None
                } else if a == members[n - 1] {
                    if members[n - 1] < usize::MAX && members[n - 1] + 1 < stack.layers.len() {
                        Some(members[n - 1] + 1)
                    } else {
                        None
                    }
                } else {
                    find_after(&members, a, 0)
                }
            },
            None => match find_grouped_before(stack, a) {
                Some(i) => Some(i),
                None => find_grouped_from(stack, a + 1),
            },
        }
    }

    /// Begin a link with the active layer, give it up when the active layer
    /// is the one it began with, or link the two.
    fn toggle_link_pending(&mut self, stack: &mut LayerStack)
        requires
            old(stack)@.wf(),
        ensures
            final(stack)@.wf(),
            match old(self).link_pending {
                None => *final(self) == (LayerPanel { link_pending: Some(old(stack).active), ..*old(self) })
                    && final(stack)@ == old(stack)@,
                Some(from) => *final(self) == (LayerPanel { link_pending: None, ..*old(self) }) && if from
                    == old(stack).active {
                    final(stack)@ == old(stack)@
                } else {
                    layers_linked(old(stack)@, final(stack)@, seq![from, old(stack).active])
                },
            },
    {
        match self.link_pending {
            None => {
                self.link_pending = Some(stack.active);
            },
            Some(from) => {
                if from != stack.active {
                    let pair = [from, stack.active];
                    assert(pair@ == seq![from, old(stack).active]);
                    stack.link_layers(&pair);
                }
                self.link_pending = None;
            },
        }
    }

    fn handle_rename_key(&mut self, code: KeyCode, idx: usize, stack: &mut LayerStack)
        requires
            old(stack)@.wf(),
            old(self).renaming == Some(idx),
        ensures
            final(stack)@.wf(),
            rename_key_post(*old(self), *final(self), old(stack)@, final(stack)@, code, idx),
    {
        match code {
            KeyCode::Enter => {
                let name = trim(self.rename_buffer.as_str());
                stack.rename(idx, name);
                self.renaming = None;
                self.rename_buffer = String::new();
            },
            KeyCode::Esc => {
                self.renaming = None;
                self.rename_buffer = String::new();
            },
            KeyCode::Backspace => {
                pop_char(&mut self.rename_buffer);
            },
            KeyCode::Char(c) => {
                push_char(&mut self.rename_buffer, c);
            },
            _ => {},
        }
    }

    fn handle_char_key(&mut self, c: char, modifiers: KeyModifiers, stack: &mut LayerStack) -> (used: bool)
        requires
            old(stack)@.wf(),
            panel_key_safe(old(stack)@, KeyCode::Char(c), modifiers),
            old(stack)@.layers.len() < usize::MAX,
            old(stack)@.groups.len() < usize::MAX,
        ensures
            final(stack)@.wf(),
            panel_char_post(*old(self), *final(self), old(stack)@, final(stack)@, c, modifiers, used),
    {
        let a = stack.active;
        if a < stack.layers.len() {
            assert(stack@.layers[a as int] == stack.layers@[a as int]@);
        }
        if c == ' ' {
            stack.toggle_visibility(a);
        } else if c == 'l' {
            stack.toggle_lock(a);
        } else if c == 'L' {
            stack.toggle_accepts_lighting(a);
        } else if c == 'S' && modifiers.bits == MOD_ALT {
            stack.toggle_casts_shadow(a);
        } else if c == '+' || c == '=' {
            let o = stack.layers[a].opacity;
            let v: u8 = if o > 230 { 255 } else { o + 25 };
            stack.set_opacity(a, v);
        } else if c == '-' || c == '_' {
            let o = stack.layers[a].opacity;
            let v: u8 = if o < 25 { 0 } else { o - 25 };
            stack.set_opacity(a, v);
        } else if c == 'n' || c == 'N' {
            assert(stack@.layers[0] == stack.layers@[0]@);
            let w = stack.layers[0].buffer.width();
            let h = stack.layers[0].buffer.height();
            stack.add(w, h);
        } else if c == 'd' || c == 'D' {
            stack.duplicate(a);
        } else if c == 'x' || c == 'X' {
            stack.delete(a);
        } else if c == 'g' && modifiers.bits == MOD_CONTROL {
            let n = stack.groups.len();
            let indices = [a];
            assert(indices@ == seq![a]);
            let name = group_name(n + 1);
            stack.create_group(&indices, name);
        } else if c == 'g' && modifiers.bits == MOD_CONTROL_SHIFT {
            match stack.group_of_layer(a) {
                Some(g) => {
                    stack.remove_group(g);
                },
                None => {},
            }
        } else if c == 'k' || c == 'K' {
            self.toggle_link_pending(stack);
        } else if c == 'M' {
            stack.toggle_mask(a);
        } else if c == 'm' {
            if a < stack.layers.len() && stack.layers[a].mask.is_some() {
                stack.toggle_mask_enabled(a);
            } else {
                stack.merge_down(a);
            }
        } else if c == ',' {
            stack.move_up(a);
        } else if c == '.' {
            stack.move_down(a);
        } else if c == 'b' {
            let mode = stack.layers[a].blend_mode.next();
            stack.set_blend_mode(a, mode);
        } else if c == 'B' {
            let mode = stack.layers[a].blend_mode.prev();
            stack.set_blend_mode(a, mode);
        } else {
            return false;
        }
        true
    }

    /// A key with `modifiers` held, acting on the active layer of `stack`:
    /// see `panel_key_post`.
    pub fn handle_key(&mut self, code: KeyCode, modifiers: KeyModifiers, stack: &mut LayerStack) -> (used: bool)
        requires
            old(stack)@.wf(),
            old(self).renaming is None ==> panel_key_safe(old(stack)@, code, modifiers),
            old(stack)@.layers.len() < usize::MAX,
            old(stack)@.groups.len() < usize::MAX,
        ensures
            final(stack)@.wf(),
            panel_key_post(*old(self), *final(self), old(stack)@, final(stack)@, code, modifiers, used),
    {
        match self.renaming {
            Some(idx) => {
                self.handle_rename_key(code, idx, stack);
                return true;
            },
            None => {},
        }
        let a = stack.active;
        if a < stack.layers.len() {
            assert(stack@.layers[a as int] == stack.layers@[a as int]@);
        }
        match code {
            KeyCode::F(n) => {
                if n == 2 {
                    self.renaming = Some(a);
                    self.rename_buffer = if a < stack.layers.len() {
                        copy_string(stack.layers[a].name.as_str())
                    } else {
                        String::new()
                    };
                    true
                } else {
                    false
                }
            },
            KeyCode::Up => {
                if modifiers.bits == MOD_ALT_SHIFT {
                    stack.move_up(a);
                    true
                } else if modifiers.bits == MOD_ALT {
                    if a > 0 {
                        stack.active = a - 1;
                    }
                    true
                } else {
                    false
                }
            },
            KeyCode::Down => {
                if modifiers.bits == MOD_ALT_SHIFT {
                    stack.move_down(a);
                    true
                } else if modifiers.bits == MOD_ALT {
                    if a + 1 < stack.layers.len() {
                        stack.active = a + 1;
                    }
                    true
                } else {
                    false
                }
            },
            KeyCode::Enter => {
                stack.toggle_visibility(a);
                true
            },
            KeyCode::Delete => {
                stack.delete(a);
                true
            },
            KeyCode::Right | KeyCode::Left => {
                if modifiers.bits != MOD_ALT {
                    return false;
                }
                match stack.group_of_layer(a) {
                    Some(g) => {
                        if g < stack.groups.len() {
                            let fold = match code {
                                KeyCode::Left => true,
                                _ => false,
                            };
                            stack.groups[g].collapsed = fold;
                            assert(stack@.groups =~= old(stack)@.groups.update(
                                g as int,
                                GroupModel { name: old(stack)@.groups[g as int].name, collapsed: fold },
                            ));
                            true
                        } else {
                            false
                        }
                    },
                    None => false,
                }
            },
            KeyCode::Tab => {
                if modifiers.bits != MOD_ALT || stack.groups.len() == 0 {
                    return false;
                }
                match LayerPanel::group_step(stack) {
                    Some(i) => {
                        stack.active = i;
                    },
                    None => {},
                }
                true
            },
            KeyCode::Char(c) => self.handle_char_key(c, modifiers, stack),
            _ => false,
        }
    }
}

/// What the pointer did, as the layer panel tells it apart.
#[derive(Debug, Clone, Copy, PartialEq, Eq, Structural)]
pub enum MouseKind {
    /// The left button went down.
    LeftDown,
    /// The pointer moved with the left button held.
    LeftDrag,
    /// The left button went up.
    LeftUp,
    /// Anything else.
    Other,
}

/// `reorder(from, to)`: the layer moves from `from` to `to`.
pub open spec fn layer_reordered(s: StackModel, t: StackModel, from: usize, to: usize) -> bool {
    if from < s.layers.len() && to < s.layers.len() && from != to {
        &&& t.layers == moved(s.layers, from as int, to as int)
        &&& t.active == active_after_reorder(s.active, from as nat, to as nat)
        &&& t.groups == s.groups && t.links == s.links
    } else {
        t == s
    }
}

/// The first toolbar button, from position `k` on, whose area holds
/// (`col`, `row`).
pub open spec fn button_hit(rects: Seq<(LayerButton, Area)>, col: u16, row: u16, k: int) -> Option<LayerButton>
    decreases rects.len() - k,
{
    if k < 0 || k >= rects.len() {
        None
    } else if col >= rects[k].1.x && col < rects[k].1.x + rects[k].1.width && row == rects[k].1.y {
        Some(rects[k].0)
    } else {
        button_hit(rects, col, row, k + 1)
    }
}

/// Every button area ends by `u16::MAX`.
pub open spec fn rects_fit(rects: Seq<(LayerButton, Area)>) -> bool {
    forall|k: int| 0 <= k < rects.len() ==> (#[trigger] rects[k]).1.x + rects[k].1.width <= u16::MAX
}

/// What a toolbar button does.
pub open spec fn button_done(pre: LayerPanel, post: LayerPanel, s: StackModel, t: StackModel, b: LayerButton) -> bool {
    let a = s.active as int;
    match b {
        LayerButton::New => post == pre && layer_added(s, t, s.layers[0].grid.width, s.layers[0].grid.height),
        LayerButton::Duplicate => post == pre && layer_duplicated(s, t, a),
        LayerButton::Delete => post == pre && layer_deleted(s, t, a),
        LayerButton::Group => post == pre && group_created(s, t, seq![a as usize], "Group "@ + decimal(s.groups.len() + 1)),
        LayerButton::Link => link_step(pre, post, s, t),
    }
}

/// What the pointer does to the panel and to the stack (`s` before, `t`
/// after) over the panel drawn in `area`, and whether it was taken: a
/// press on a toolbar button runs it; on a layer's left edge it starts a
/// drag, elsewhere on a layer it makes that layer active; dragging tracks
/// the layer under the pointer; releasing moves the dragged layer there.
pub open spec fn mouse_post(pre: LayerPanel, post: LayerPanel, s: StackModel, t: StackModel, col: u16, row: u16, kind: MouseKind, area: Area, used: bool) -> bool {
    let inner = bordered_inner(area);
    let unused = !used && post == pre && t == s;
    match kind {
        MouseKind::LeftDown => match button_hit(pre.button_rects@, col, row, 0) {
            Some(b) => used && button_done(pre, post, s, t, b),
            None => match layer_at(pre.scroll, col, row, area, s) {
                Some(idx) => if col <= inner.x + 1 {
                    used && t == s && post == (LayerPanel { drag_state: Some((idx, idx)), drag_hover_row: None, ..pre })
                } else if s.active != idx {
                    used && post == pre && t == (if idx < s.layers.len() { StackModel { active: idx as nat, ..s } } else { s })
                } else {
                    unused
                },
                None => unused,
            },
        },
        MouseKind::LeftDrag => match pre.drag_state {
            Some(d) => used && t == s && post == (match layer_at(pre.scroll, col, row, area, s) {
                Some(idx) => LayerPanel {
                    drag_hover_row: Some(idx),
                    drag_state: if idx != d.0 { Some((d.0, idx)) } else { pre.drag_state },
                    ..pre
                },
                None => pre,
            }),
            None => unused,
        },
        MouseKind::LeftUp => match pre.drag_state {
            Some(d) => post == (LayerPanel { drag_state: None, drag_hover_row: None, ..pre }) && if d.0 != d.1 && d.1 < s.layers.len() {
                used && layer_reordered(s, t, d.0, d.1)
            } else {
                !used && t == s
            },
            None => unused,
        },
        MouseKind::Other => unused,
    }
}

/// The width of each of the five toolbar buttons across `width` cells.
pub open spec fn button_width(width: u16) -> int {
    if width / 5 >= 1 {
        (width / 5) as int
    } else {
        1
    }
}

/// The toolbar button at position `i`.
pub open spec fn button_at(i: int) -> LayerButton {
    if i == 0 {
        LayerButton::New
    } else if i == 1 {
        LayerButton::Duplicate
    } else if i == 2 {
        LayerButton::Delete
    } else if i == 3 {
        LayerButton::Group
    } else {
        LayerButton::Link
    }
}

/// The toolbar laid out along the top row of `inner`: five buttons side
/// by side, each `button_width` wide, the last ones cut at the right edge;
/// none when there is no row.
pub open spec fn toolbar(inner: Area) -> Seq<(LayerButton, Area)> {
    let bw = button_width(inner.width);
    if inner.height == 0 {
        Seq::empty()
    } else {
        Seq::new(
            5,
            |i: int|
                (
                    button_at(i),
                    Area {
                        x: (inner.x + i * bw) as u16,
                        y: inner.y,
                        width: (if bw < inner.width - i * bw { bw } else { inner.width - i * bw }) as u16,
                        height: 1,
                    },
                ),
        )
    }
}

/// Laying out the toolbar in `area` stays inside 16-bit coordinates.
pub open spec fn toolbar_fits(area: Area) -> bool {
    let inner = bordered_inner(area);
    inner.height == 0 || (inner.width >= 4 && inner.x + 5 * button_width(inner.width) <= u16::MAX)
}

/// The first row of the active layer's line, 0 when it has none.
pub open spec fn active_row(rows: Seq<PanelRow>, active: usize) -> nat {
    if rows.contains(PanelRow::Layer(active)) {
        layer_row(rows, active, 0, 0)
    } else {
        0
    }
}

/// The scroll offset after laying out: moved just enough that the active
/// layer's first row shows among the `visible` rows under the toolbar
/// (unchanged when no row shows).
pub open spec fn scrolled_to_active(scroll: u16, row: nat, visible: nat) -> u16 {
    if visible == 0 {
        scroll
    } else if row < scroll {
        row as u16
    } else if row >= scroll + visible {
        (if visible >= 2 {
            if row >= visible - 2 { row - (visible - 2) } else { 0 }
        } else {
            row as int
        }) as u16
    } else {
        scroll
    }
}

impl LayerPanel {
    /// The layer under (`col`, `row`) in the panel drawn in `area`: see
    /// `layer_at`.
    pub fn layer_at_pos(&self, col: u16, row: u16, area: Area, stack: &LayerStack) -> (r: Option<usize>)
        requires
            bordered_inner(area).y < u16::MAX,
        ensures
            r == layer_at(self.scroll, col, row, area, stack@),
    {
        let inner = block_inner(area);
        if row < inner.y + 1 || col < inner.x {
            return None;
        }
        let vis_row = (row - inner.y) as usize;
        let effective = (vis_row - 1) + self.scroll as usize;
        let rows = LayerPanel::rows(stack);
        match find_row(&rows, effective) {
            Some(PanelRow::Layer(i)) => Some(i),
            _ => None,
        }
    }

    fn find_button(&self, col: u16, row: u16) -> (r: Option<LayerButton>)
        requires
            rects_fit(self.button_rects@),
        ensures
            r == button_hit(self.button_rects@, col, row, 0),
    {
        let mut k: usize = 0;
        while k < self.button_rects.len()
            invariant
                k <= self.button_rects@.len(),
                rects_fit(self.button_rects@),
                button_hit(self.button_rects@, col, row, 0) == button_hit(self.button_rects@, col, row, k as int),
            decreases self.button_rects@.len() - k,
        {
            let (b, r) = self.button_rects[k];
            assert(self.button_rects@[k as int].1.x + self.button_rects@[k as int].1.width <= u16::MAX);
            if col >= r.x && col < r.x + r.width && row == r.y {
                return Some(b);
            }
            k = k + 1;
        }
        None
    }

    /// The pointer over the panel drawn in `area`: see `mouse_post`.
    pub fn handle_mouse(&mut self, col: u16, row: u16, kind: MouseKind, area: Area, stack: &mut LayerStack) -> (used: bool)
        requires
            old(stack)@.wf(),
            (kind == MouseKind::LeftDown && button_hit(old(self).button_rects@, col, row, 0) == Some(LayerButton::New))
                ==> old(stack)@.layers.len() > 0,
            old(stack)@.layers.len() < usize::MAX,
            old(stack)@.groups.len() < usize::MAX,
            bordered_inner(area).x < u16::MAX,
            bordered_inner(area).y < u16::MAX,
            rects_fit(old(self).button_rects@),
        ensures
            final(stack)@.wf(),
            mouse_post(*old(self), *final(self), old(stack)@, final(stack)@, col, row, kind, area, used),
    {
        let inner = block_inner(area);
        match kind {
            MouseKind::LeftDown => {
                match self.find_button(col, row) {
                    Some(b) => {
                        let a = stack.active;
                        match b {
                            LayerButton::New => {
                                assert(stack@.layers[0] == stack.layers@[0]@);
                                let w = stack.layers[0].buffer.width();
                                let h = stack.layers[0].buffer.height();
                                stack.add(w, h);
                            },
                            LayerButton::Duplicate => {
                                stack.duplicate(a);
                            },
                            LayerButton::Delete => {
                                stack.delete(a);
                            },
                            LayerButton::Group => {
                                let indices = [a];
                                assert(indices@ == seq![a]);
                                let name = group_name(stack.groups.len() + 1);
                                stack.create_group(&indices, name);
                            },
                            LayerButton::Link => {
                                self.toggle_link_pending(stack);
                            },
                        }
                        return true;
                    },
                    None => {},
                }
                match self.layer_at_pos(col, row, area, stack) {
                    Some(idx) => {
                        if col <= inner.x + 1 {
                            self.drag_state = Some((idx, idx));
                            self.drag_hover_row = None;
                            return true;
                        }
                        if stack.active != idx {
                            stack.set_active(idx);
                            return true;
                        }
                        false
                    },
                    None => false,
                }
            },
            MouseKind::LeftDrag => {
                match self.drag_state {
                    Some((from, _to)) => {
                        match self.layer_at_pos(col, row, area, stack) {
                            Some(idx) => {
                                self.drag_hover_row = Some(idx);
                                if idx != from {
                                    self.drag_state = Some((from, idx));
                                }
                            },
                            None => {},
                        }
                        true
                    },
                    None => false,
                }
            },
            MouseKind::LeftUp => {
                match self.drag_state {
                    Some((from, to)) => {
                        self.drag_state = None;
                        self.drag_hover_row = None;
                        if from != to && to < stack.layers.len() {
                            stack.reorder(from, to);
                            return true;
                        }
                        false
                    },
                    None => false,
                }
            },
            MouseKind::Other => false,
        }
    }

    /// Lay the panel out in `area` for `stack`: place the toolbar buttons
    /// (see `toolbar`) and scroll so the active layer shows (see
    /// `scrolled_to_active`).
    pub fn layout(&mut self, area: Area, stack: &LayerStack)
        requires
            toolbar_fits(area),
            stack@.layers.len() <= usize::MAX / 4,
        ensures
            final(self).button_rects@ == toolbar(bordered_inner(area)),
            final(self).scroll == scrolled_to_active(
                old(self).scroll,
                active_row(panel_rows(stack@), stack.active),
                (if bordered_inner(area).height >= 1 { bordered_inner(area).height - 1 } else { 0 }) as nat,
            ),
            *final(self) == (LayerPanel { button_rects: final(self).button_rects, scroll: final(self).scroll, ..*old(self) }),
    {
        let inner = block_inner(area);
        let mut rects: Vec<(LayerButton, Area)> = Vec::new();
        if inner.height > 0 {
            let bw: u16 = if inner.width / 5 >= 1 { inner.width / 5 } else { 1 };
            let mut bx: u16 = inner.x;
            let mut i: usize = 0;
            while i < 5
                invariant
                    i <= 5,
                    inner == bordered_inner(area),
                    inner.height > 0,
                    toolbar_fits(area),
                    bw == button_width(inner.width),
                    bx == inner.x + i * bw,
                    rects@.len() == i,
                    forall|k: int| 0 <= k < i ==> #[trigger] rects@[k] == toolbar(inner)[k],
                decreases 5 - i,
            {
                proof {
                    assert(i * bw <= inner.width) by (nonlinear_arith)
                        requires
                            i < 5,
                            inner.width >= 4,
                            bw == (if inner.width / 5 >= 1 { (inner.width / 5) as int } else { 1 }),
                    ;
                    assert(5 * bw <= inner.x + 5 * bw);
                    assert((i + 1) * bw <= 5 * bw) by (nonlinear_arith)
                        requires
                            i < 5,
                            bw >= 1,
                    ;
                }
                let b = if i == 0 {
                    LayerButton::New
                } else if i == 1 {
                    LayerButton::Duplicate
                } else if i == 2 {
                    LayerButton::Delete
                } else if i == 3 {
                    LayerButton::Group
                } else {
                    LayerButton::Link
                };
                let room = inner.x + inner.width - bx;
                let w = if bw < room { bw } else { room };
                rects.push((b, Area { x: bx, y: inner.y, width: w, height: 1 }));
                assert((i + 1) * bw == i * bw + bw) by (nonlinear_arith);
                bx = bx + bw;
                i = i + 1;
            }
        }
        assert(rects@ =~= toolbar(inner));
        self.button_rects = rects;
        let visible: usize = if inner.height >= 1 { (inner.height - 1) as usize } else { 0 };
        if visible == 0 {
            return;
        }
        let rows = LayerPanel::rows(stack);
        let row = active_row_of(&rows, stack.active);
        let scroll = self.scroll as usize;
        if row < scroll {
            self.scroll = row as u16;
        } else if row >= scroll + visible {
            let keep: usize = if visible >= 2 { visible - 2 } else { 0 };
            let target: usize = if row >= keep { row - keep } else { 0 };
            self.scroll = #[verifier::truncate] (target as u16);
        }
    }
}

fn active_row_of(rows: &Vec<PanelRow>, active: usize) -> (r: usize)
    requires
        rows@.len() <= usize::MAX / 2,
    ensures
        r == active_row(rows@, active),
{
    let mut k: usize = 0;
    let mut base: usize = 0;
    while k < rows.len()
        invariant
            k <= rows@.len(),
            rows@.len() <= usize::MAX / 2,
            base <= 2 * k,
            layer_row(rows@, active, 0, 0) == layer_row(rows@, active, k as int, base as nat),
            forall|j: int| 0 <= j < k ==> rows@[j] != PanelRow::Layer(active),
        decreases rows@.len() - k,
    {
        if rows[k] == PanelRow::Layer(active) {
            assert(rows@.contains(PanelRow::Layer(active)));
            return base;
        }
        let h: usize = match rows[k] {
            PanelRow::GroupHeader(_) => 1,
            PanelRow::Layer(_) => 2,
        };
        base = base + h;
        k = k + 1;
    }
    assert(!rows@.contains(PanelRow::Layer(active)));
    0
}

impl Default for LayerPanel {
    fn default() -> (p: LayerPanel)
        ensures
            p.renaming is None,
            p.link_pending is None,
    {
        LayerPanel::new()
    }
}


/// After `merge_down(i)` merges an unlocked layer into the one below, every
/// cell where the upper layer had a character other than a space shows
/// that cell in the merged layer, whatever the lower layer held there.
pub proof fn law_merge_down_upper_cells_win(s: StackModel, t: StackModel, i: int, x: int, y: int)
    requires
        0 < i < s.layers.len(),
        !s.layers[i].locked,
        layer_merged_down(s, t, i),
        t.layers[i - 1].grid.in_bounds(x, y),
        s.layers[i].grid.in_bounds(x, y),
        s.layers[i].grid.cell(x, y).ch != ' ',
    ensures
        t.layers[i - 1].grid.cell(x, y) == s.layers[i].grid.cell(x, y),
{
}
} // verus!
