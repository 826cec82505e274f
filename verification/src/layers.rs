use vstd::prelude::*;

use crate::canvas::{blank_cell, CanvasBuffer, CanvasCell, Color, GridModel};
use crate::text::{copy_string, decimal, is_blank, is_blank_text, push_char, push_decimal, push_str};

verus! {

/// How a layer's colours combine with the colours beneath it.
#[derive(Debug, Clone, Copy, PartialEq, Eq, Structural)]
pub enum BlendMode {
    Normal,
    Multiply,
    Overlay,
    Screen,
    Add,
    Subtract,
}

impl BlendMode {
    pub open spec fn spec_next(self) -> BlendMode {
        match self {
            BlendMode::Normal => BlendMode::Multiply,
            BlendMode::Multiply => BlendMode::Overlay,
            BlendMode::Overlay => BlendMode::Screen,
            BlendMode::Screen => BlendMode::Add,
            BlendMode::Add => BlendMode::Subtract,
            BlendMode::Subtract => BlendMode::Normal,
        }
    }

    pub open spec fn spec_prev(self) -> BlendMode {
        match self {
            BlendMode::Normal => BlendMode::Subtract,
            BlendMode::Multiply => BlendMode::Normal,
            BlendMode::Overlay => BlendMode::Multiply,
            BlendMode::Screen => BlendMode::Overlay,
            BlendMode::Add => BlendMode::Screen,
            BlendMode::Subtract => BlendMode::Add,
        }
    }

    pub open spec fn spec_icon_key(self) -> Seq<char> {
        match self {
            BlendMode::Normal => "blend_normal"@,
            BlendMode::Multiply => "blend_multiply"@,
            BlendMode::Overlay => "blend_overlay"@,
            BlendMode::Screen => "blend_screen"@,
            BlendMode::Add => "blend_add"@,
            BlendMode::Subtract => "blend_subtract"@,
        }
    }

    pub open spec fn spec_display_name(self) -> Seq<char> {
        match self {
            BlendMode::Normal => "Normal"@,
            BlendMode::Multiply => "Multiply"@,
            BlendMode::Overlay => "Overlay"@,
            BlendMode::Screen => "Screen"@,
            BlendMode::Add => "Add"@,
            BlendMode::Subtract => "Subtract"@,
        }
    }

    pub fn next(&self) -> (r: BlendMode)
        ensures
            r == self.spec_next(),
    {
        match self {
            BlendMode::Normal => BlendMode::Multiply,
            BlendMode::Multiply => BlendMode::Overlay,
            BlendMode::Overlay => BlendMode::Screen,
            BlendMode::Screen => BlendMode::Add,
            BlendMode::Add => BlendMode::Subtract,
            BlendMode::Subtract => BlendMode::Normal,
        }
    }

    pub fn prev(&self) -> (r: BlendMode)
        ensures
            r == self.spec_prev(),
    {
        match self {
            BlendMode::Normal => BlendMode::Subtract,
            BlendMode::Multiply => BlendMode::Normal,
            BlendMode::Overlay => BlendMode::Multiply,
            BlendMode::Screen => BlendMode::Overlay,
            BlendMode::Add => BlendMode::Screen,
            BlendMode::Subtract => BlendMode::Add,
        }
    }

    /// Key of the icon drawn for the mode.
    pub fn icon_key(&self) -> (r: &'static str)
        ensures
            r@ == self.spec_icon_key(),
    {
        match self {
            BlendMode::Normal => "blend_normal",
            BlendMode::Multiply => "blend_multiply",
            BlendMode::Overlay => "blend_overlay",
            BlendMode::Screen => "blend_screen",
            BlendMode::Add => "blend_add",
            BlendMode::Subtract => "blend_subtract",
        }
    }

    /// Name of the mode as shown to the user.
    pub fn display_name(&self) -> (r: &'static str)
        ensures
            r@ == self.spec_display_name(),
    {
        match self {
            BlendMode::Normal => "Normal",
            BlendMode::Multiply => "Multiply",
            BlendMode::Overlay => "Overlay",
            BlendMode::Screen => "Screen",
            BlendMode::Add => "Add",
            BlendMode::Subtract => "Subtract",
        }
    }
}

impl Default for BlendMode {
    fn default() -> (m: BlendMode)
        ensures
            m == BlendMode::Normal,
    {
        BlendMode::Normal
    }
}

/// One colour channel of `top` blended over `bottom` (both 0 to 255).
pub open spec fn spec_blend_channel(top: int, bottom: int, mode: BlendMode) -> int {
    match mode {
        BlendMode::Normal => top,
        BlendMode::Multiply => top * bottom / 255,
        BlendMode::Overlay => if bottom < 128 {
            2 * top * bottom / 255
        } else {
            255 - 2 * (255 - top) * (255 - bottom) / 255
        },
        BlendMode::Screen => 255 - (255 - top) * (255 - bottom) / 255,
        BlendMode::Add => if top + bottom > 255 {
            255
        } else {
            top + bottom
        },
        BlendMode::Subtract => if bottom > top {
            bottom - top
        } else {
            0
        },
    }
}

/// `top` blended over `bottom` with `mode`: RGB pairs are blended channel
/// by channel; otherwise the top colour wins, and a missing colour gives
/// way to the other.
pub open spec fn spec_blend_mode_color(
    top: Option<Color>,
    bottom: Option<Color>,
    mode: BlendMode,
) -> Option<Color> {
    if mode == BlendMode::Normal {
        top
    } else {
        match (top, bottom) {
            (Some(t), Some(b)) => match (t, b) {
                (Color::Rgb(tr, tg, tb), Color::Rgb(br, bg, bb)) => Some(
                    Color::Rgb(
                        spec_blend_channel(tr as int, br as int, mode) as u8,
                        spec_blend_channel(tg as int, bg as int, mode) as u8,
                        spec_blend_channel(tb as int, bb as int, mode) as u8,
                    ),
                ),
                _ => Some(t),
            },
            (Some(t), None) => Some(t),
            (None, Some(b)) => Some(b),
            (None, None) => None,
        }
    }
}

/// `top * opacity + bottom * (1 - opacity)` with opacity on a 0..255
/// scale, rounded to the nearest integer.
pub open spec fn spec_mix(top: int, bottom: int, opacity: int) -> int {
    (top * opacity + bottom * (255 - opacity) + 127) / 255
}

/// `top` laid over `bottom` with the given opacity: RGB pairs are mixed
/// channel by channel; otherwise the top colour wins, and a missing colour
/// gives way to the other.
pub open spec fn spec_blend_colors(top: Option<Color>, bottom: Option<Color>, opacity: u8) -> Option<
    Color,
> {
    match (top, bottom) {
        (Some(t), Some(b)) => match (t, b) {
            (Color::Rgb(tr, tg, tb), Color::Rgb(br, bg, bb)) => Some(
                Color::Rgb(
                    spec_mix(tr as int, br as int, opacity as int) as u8,
                    spec_mix(tg as int, bg as int, opacity as int) as u8,
                    spec_mix(tb as int, bb as int, opacity as int) as u8,
                ),
            ),
            _ => Some(t),
        },
        (Some(t), None) => Some(t),
        (None, Some(b)) => Some(b),
        (None, None) => None,
    }
}

/// The blended channel always fits in a byte.
pub proof fn lemma_blend_channel_bounds(top: int, bottom: int, mode: BlendMode)
    requires
        0 <= top <= 255,
        0 <= bottom <= 255,
    ensures
        0 <= spec_blend_channel(top, bottom, mode) <= 255,
{
    match mode {
        BlendMode::Multiply => {
            assert(0 <= top * bottom <= 255 * 255) by (nonlinear_arith)
                requires
                    0 <= top <= 255,
                    0 <= bottom <= 255,
            ;
        },
        BlendMode::Overlay => {
            if bottom < 128 {
                assert(0 <= 2 * top * bottom <= 2 * 255 * 127) by (nonlinear_arith)
                    requires
                        0 <= top <= 255,
                        0 <= bottom < 128,
                ;
            } else {
                assert(0 <= 2 * (255 - top) * (255 - bottom) <= 2 * 255 * 127) by (nonlinear_arith)
                    requires
                        0 <= top <= 255,
                        128 <= bottom <= 255,
                ;
            }
        },
        BlendMode::Screen => {
            assert(0 <= (255 - top) * (255 - bottom) <= 255 * 255) by (nonlinear_arith)
                requires
                    0 <= top <= 255,
                    0 <= bottom <= 255,
            ;
        },
        _ => {},
    }
}

/// One channel of `top` blended over `bottom`.
pub fn blend_channel(top: u8, bottom: u8, mode: BlendMode) -> (r: u8)
    ensures
        r == spec_blend_channel(top as int, bottom as int, mode),
{
    proof {
        lemma_blend_channel_bounds(top as int, bottom as int, mode);
    }
    match mode {
        BlendMode::Normal => top,
        BlendMode::Multiply => {
            assert((top as u32) * (bottom as u32) <= 65025) by (nonlinear_arith);
            ((top as u32) * (bottom as u32) / 255) as u8
        },
        BlendMode::Overlay => {
            if bottom < 128 {
                assert(2u32 * (top as u32) * (bottom as u32) <= 2 * 65025) by (nonlinear_arith);
                ((2u32 * top as u32 * bottom as u32) / 255) as u8
            } else {
                let a: u32 = 255u32 - top as u32;
                let b: u32 = 255u32 - bottom as u32;
                assert(2u32 * a * b <= 2 * 65025) by (nonlinear_arith)
                    requires
                        a <= 255,
                        b <= 255,
                ;
                (255u32 - (2u32 * a * b) / 255) as u8
            }
        },
        BlendMode::Screen => {
            let a: u32 = 255u32 - top as u32;
            let b: u32 = 255u32 - bottom as u32;
            assert(a * b <= 65025) by (nonlinear_arith)
                requires
                    a <= 255,
                    b <= 255,
            ;
            (255u32 - (a * b) / 255) as u8
        },
        BlendMode::Add => {
            if top as u16 + bottom as u16 > 255 {
                255
            } else {
                top + bottom
            }
        },
        BlendMode::Subtract => {
            if bottom > top {
                bottom - top
            } else {
                0
            }
        },
    }
}

/// `top` blended over `bottom` with `mode`.
pub fn blend_mode_color(top: Option<Color>, bottom: Option<Color>, mode: BlendMode) -> (r: Option<
    Color,
>)
    ensures
        r == spec_blend_mode_color(top, bottom, mode),
{
    if mode == BlendMode::Normal {
        return top;
    }
    match (top, bottom) {
        (Some(t), Some(b)) => match (t, b) {
            (Color::Rgb(tr, tg, tb), Color::Rgb(br, bg, bb)) => {
                let r = blend_channel(tr, br, mode);
                let g = blend_channel(tg, bg, mode);
                let b = blend_channel(tb, bb, mode);
                Some(Color::Rgb(r, g, b))
            },
            _ => Some(t),
        },
        (Some(t), None) => Some(t),
        (None, Some(b)) => Some(b),
        (None, None) => None,
    }
}

/// A mix of two channels always fits in a byte.
pub proof fn lemma_mix_bounds(top: int, bottom: int, opacity: int)
    requires
        0 <= top <= 255,
        0 <= bottom <= 255,
        0 <= opacity <= 255,
    ensures
        0 <= spec_mix(top, bottom, opacity) <= 255,
{
    assert(0 <= top * opacity + bottom * (255 - opacity) <= 255 * 255) by (nonlinear_arith)
        requires
            0 <= top <= 255,
            0 <= bottom <= 255,
            0 <= opacity <= 255,
    ;
}

fn mix(top: u8, bottom: u8, opacity: u8) -> (r: u8)
    ensures
        r == spec_mix(top as int, bottom as int, opacity as int),
{
    proof {
        lemma_mix_bounds(top as int, bottom as int, opacity as int);
    }
    let t = top as u32;
    let b = bottom as u32;
    let o = opacity as u32;
    assert(t * o + b * (255 - o) <= 255 * 255) by (nonlinear_arith)
        requires
            t <= 255,
            b <= 255,
            o <= 255,
    ;
    ((t * o + b * (255 - o) + 127) / 255) as u8
}

/// `top` laid over `bottom` with the given opacity.
pub fn blend_colors(top: Option<Color>, bottom: Option<Color>, opacity: u8) -> (r: Option<Color>)
    ensures
        r == spec_blend_colors(top, bottom, opacity),
{
    match (top, bottom) {
        (Some(t), Some(b)) => match (t, b) {
            (Color::Rgb(tr, tg, tb), Color::Rgb(br, bg, bb)) => {
                let r = mix(tr, br, opacity);
                let g = mix(tg, bg, opacity);
                let b = mix(tb, bb, opacity);
                Some(Color::Rgb(r, g, b))
            },
            _ => Some(t),
        },
        (Some(t), None) => Some(t),
        (None, Some(b)) => Some(b),
        (None, None) => None,
    }
}


/// The content of a layer mask: a grid whose space cells hide the layer.
pub struct MaskModel {
    pub grid: GridModel,
    pub enabled: bool,
}

/// A per-layer mask: where the mask holds a space, the layer is hidden.
#[derive(Debug, Clone)]
pub struct LayerMask {
    pub buffer: CanvasBuffer,
    pub enabled: bool,
}

impl View for LayerMask {
    type V = MaskModel;

    open spec fn view(&self) -> MaskModel {
        MaskModel { grid: self.buffer@, enabled: self.enabled }
    }
}

impl LayerMask {
    /// An enabled mask of the given size, all blank.
    pub fn new(width: usize, height: usize) -> (m: LayerMask)
        ensures
            m@.grid.is_blank(width as nat, height as nat),
            m@.enabled,
    {
        LayerMask { buffer: CanvasBuffer::new(width, height), enabled: true }
    }

    pub fn buffer(&self) -> (b: &CanvasBuffer)
        ensures
            b@ == self.buffer@,
    {
        &self.buffer
    }

    /// The mask's cells, to change in place.
    pub fn buffer_mut(&mut self) -> (b: &mut CanvasBuffer)
        ensures
            *b == old(self).buffer,
            final(self)@ == (MaskModel { grid: final(b)@, ..old(self)@ }),
    {
        &mut self.buffer
    }

    fn duplicate(&self) -> (m: LayerMask)
        requires
            self@.grid.wf(),
        ensures
            m@ == self@,
    {
        LayerMask { buffer: self.buffer.duplicate(), enabled: self.enabled }
    }
}

/// The content of a layer group: its name and whether it is folded.
pub struct GroupModel {
    pub name: Seq<char>,
    pub collapsed: bool,
}

/// A named group of layers, shown folded or unfolded in the layer panel.
#[derive(Debug, Clone)]
pub struct LayerGroup {
    pub name: String,
    pub collapsed: bool,
}

impl View for LayerGroup {
    type V = GroupModel;

    open spec fn view(&self) -> GroupModel {
        GroupModel { name: self.name@, collapsed: self.collapsed }
    }
}

impl LayerGroup {
    /// An unfolded group with the given name.
    pub fn new(name: String) -> (g: LayerGroup)
        ensures
            g@ == (GroupModel { name: name@, collapsed: false }),
    {
        LayerGroup { name, collapsed: false }
    }
}

/// A set of layers whose visibility and lock state stay in sync with each
/// other: toggling either on one member propagates to the rest.
#[derive(Debug, Clone)]
pub struct LayerLink {
    pub layer_indices: Vec<usize>,
}

/// The content of a layer.
pub struct LayerModel {
    pub grid: GridModel,
    pub name: Seq<char>,
    pub visible: bool,
    pub locked: bool,
    pub opacity: u8,
    pub blend_mode: BlendMode,
    pub mask: Option<MaskModel>,
    pub group: Option<usize>,
    pub link: Option<usize>,
    pub accepts_lighting: bool,
    pub casts_shadow: bool,
}

impl LayerModel {
    /// The layer's grid, and its mask's grid if any, are well formed.
    pub open spec fn wf(self) -> bool {
        &&& self.grid.wf()
        &&& (self.mask matches Some(m) ==> m.grid.wf())
    }

    /// A freshly created layer: blank, visible, unlocked, opaque, normal
    /// blending, no mask, group or link, lit and casting shadows.
    pub open spec fn is_fresh(self, width: nat, height: nat, name: Seq<char>) -> bool {
        &&& self.grid.is_blank(width, height)
        &&& self.name == name
        &&& self.visible
        &&& !self.locked
        &&& self.opacity == 255
        &&& self.blend_mode == BlendMode::Normal
        &&& self.mask.is_none()
        &&& self.group.is_none()
        &&& self.link.is_none()
        &&& self.accepts_lighting
        &&& self.casts_shadow
    }
}

/// One drawing layer of the image.
#[derive(Debug, Clone)]
pub struct Layer {
    pub buffer: CanvasBuffer,
    pub name: String,
    pub visible: bool,
    pub locked: bool,
    pub opacity: u8,
    pub blend_mode: BlendMode,
    pub mask: Option<LayerMask>,
    pub group: Option<usize>,
    pub link: Option<usize>,
    pub accepts_lighting: bool,
    pub casts_shadow: bool,
}

impl View for Layer {
    type V = LayerModel;

    open spec fn view(&self) -> LayerModel {
        LayerModel {
            grid: self.buffer@,
            name: self.name@,
            visible: self.visible,
            locked: self.locked,
            opacity: self.opacity,
            blend_mode: self.blend_mode,
            mask: match self.mask {
                Some(m) => Some(m@),
                None => None,
            },
            group: self.group,
            link: self.link,
            accepts_lighting: self.accepts_lighting,
            casts_shadow: self.casts_shadow,
        }
    }
}

impl Layer {
    pub fn new(width: usize, height: usize, name: String) -> (l: Layer)
        ensures
            l@.is_fresh(width as nat, height as nat, name@),
    {
        Layer {
            buffer: CanvasBuffer::new(width, height),
            name,
            visible: true,
            locked: false,
            opacity: 255,
            blend_mode: BlendMode::Normal,
            mask: None,
            group: None,
            link: None,
            accepts_lighting: true,
            casts_shadow: true,
        }
    }

    pub fn buffer(&self) -> (b: &CanvasBuffer)
        ensures
            b@ == self.buffer@,
    {
        &self.buffer
    }

    /// The layer's cells, to change in place.
    pub fn buffer_mut(&mut self) -> (b: &mut CanvasBuffer)
        ensures
            *b == old(self).buffer,
            final(self)@ == (LayerModel { grid: final(b)@, ..old(self)@ }),
    {
        &mut self.buffer
    }

    /// A copy of the layer, equal to it in every respect.
    pub fn duplicate(&self) -> (l: Layer)
        requires
            self@.wf(),
        ensures
            l@ == self@,
    {
        let mask = match &self.mask {
            Some(m) => Some(m.duplicate()),
            None => None,
        };
        Layer {
            buffer: self.buffer.duplicate(),
            name: self.name.clone(),
            visible: self.visible,
            locked: self.locked,
            opacity: self.opacity,
            blend_mode: self.blend_mode,
            mask,
            group: self.group,
            link: self.link,
            accepts_lighting: self.accepts_lighting,
            casts_shadow: self.casts_shadow,
        }
    }
}

/// The content of a layer stack: layers from bottom to top, the active
/// layer's index, the groups and the links (each a list of layer indices).
pub struct StackModel {
    pub layers: Seq<LayerModel>,
    pub active: nat,
    pub groups: Seq<GroupModel>,
    pub links: Seq<Seq<usize>>,
}

/// The layers of an image, bottom first, with groups and links.
#[derive(Debug, Clone)]
pub struct LayerStack {
    pub layers: Vec<Layer>,
    pub active: usize,
    pub groups: Vec<LayerGroup>,
    pub links: Vec<LayerLink>,
}

impl View for LayerStack {
    type V = StackModel;

    open spec fn view(&self) -> StackModel {
        StackModel {
            layers: self.layers@.map_values(|l: Layer| l@),
            active: self.active as nat,
            groups: self.groups@.map_values(|g: LayerGroup| g@),
            links: self.links@.map_values(|k: LayerLink| k.layer_indices@),
        }
    }
}

/// The name given to the layer at position `i` when layers are created in
/// bulk: "Background" for the first, "Layer n" (1-based) for the others.
pub open spec fn default_layer_name(i: nat) -> Seq<char> {
    if i == 0 {
        "Background"@
    } else {
        "Layer "@ + decimal(i + 1)
    }
}

/// `s` with `n` at its end when it has positions, clamped to the last.
pub open spec fn clamp_index(i: nat, len: nat) -> nat {
    if len == 0 {
        0
    } else if i < len {
        i
    } else {
        (len - 1) as nat
    }
}

/// "Layer n" for a 1-based number `n`.
fn numbered_layer_name(n: usize) -> (s: String)
    ensures
        s@ == "Layer "@ + decimal(n as nat),
{
    let mut s = String::new();
    push_str(&mut s, "Layer ");
    push_decimal(&mut s, n);
    proof {
        reveal_strlit("Layer ");
    }
    s
}

impl StackModel {
    /// Every layer is well formed.
    pub open spec fn wf(self) -> bool {
        forall|i: int| 0 <= i < self.layers.len() ==> (#[trigger] self.layers[i]).wf()
    }
}

impl LayerStack {
    /// A stack holding a single blank "Background" layer.
    pub fn new(width: usize, height: usize) -> (s: LayerStack)
        ensures
            s@.wf(),
            s@.layers.len() == 1,
            s@.layers[0].is_fresh(width as nat, height as nat, "Background"@),
            s@.active == 0,
            s@.groups.len() == 0,
            s@.links.len() == 0,
    {
        let mut layers: Vec<Layer> = Vec::new();
        layers.push(Layer::new(width, height, copy_string("Background")));
        let s = LayerStack { layers, active: 0, groups: Vec::new(), links: Vec::new() };
        assert(s@.layers[0] == layers@[0]@);
        s
    }

    /// A stack of `max(initial_layers, 1)` blank layers named
    /// "Background", "Layer 2", "Layer 3", ...
    pub fn with_capacity(width: usize, height: usize, initial_layers: usize) -> (s: LayerStack)
        ensures
            s@.wf(),
            s@.layers.len() == (if initial_layers == 0 {
                1
            } else {
                initial_layers as int
            }),
            forall|i: int| 0 <= i < s@.layers.len() ==> (#[trigger] s@.layers[i]).is_fresh(
                width as nat,
                height as nat,
                default_layer_name(i as nat),
            ),
            s@.active == 0,
            s@.groups.len() == 0,
            s@.links.len() == 0,
    {
        let n = if initial_layers == 0 {
            1
        } else {
            initial_layers
        };
        let mut layers: Vec<Layer> = Vec::new();
        let mut i: usize = 0;
        while i < n
            invariant
                i <= n,
                layers@.len() == i,
                forall|k: int| 0 <= k < i ==> (#[trigger] layers@[k])@.is_fresh(
                    width as nat,
                    height as nat,
                    default_layer_name(k as nat),
                ),
            decreases n - i,
        {
            let name = if i == 0 {
                copy_string("Background")
            } else {
                numbered_layer_name(i + 1)
            };
            layers.push(Layer::new(width, height, name));
            i = i + 1;
        }
        let s = LayerStack { layers, active: 0, groups: Vec::new(), links: Vec::new() };
        assert forall|k: int| 0 <= k < s@.layers.len() implies (#[trigger] s@.layers[k]).wf() by {
            assert(s@.layers[k] == layers@[k]@);
        }
        s
    }

    pub fn len(&self) -> (n: usize)
        ensures
            n == self@.layers.len(),
    {
        self.layers.len()
    }

    pub fn is_empty(&self) -> (b: bool)
        ensures
            b == (self@.layers.len() == 0),
    {
        self.layers.len() == 0
    }

    /// The active layer (the top one when the index is past the end).
    pub fn active_layer(&self) -> (l: &Layer)
        requires
            self@.layers.len() > 0,
        ensures
            l@ == self@.layers[clamp_index(self@.active, self@.layers.len()) as int],
    {
        let last = self.layers.len() - 1;
        let idx = if self.active < last {
            self.active
        } else {
            last
        };
        &self.layers[idx]
    }

    /// Append a blank layer named "Layer n" (n its 1-based position) and
    /// make it active; returns its index.
    pub fn add(&mut self, width: usize, height: usize) -> (idx: usize)
        requires
            old(self)@.wf(),
            old(self)@.layers.len() < usize::MAX,
        ensures
            final(self)@.wf(),
            idx == old(self)@.layers.len(),
            final(self)@.layers.len() == old(self)@.layers.len() + 1,
            final(self)@.layers.subrange(0, idx as int) == old(self)@.layers,
            final(self)@.layers[idx as int].is_fresh(
                width as nat,
                height as nat,
                "Layer "@ + decimal(idx as nat + 1),
            ),
            final(self)@.active == idx,
            final(self)@.groups == old(self)@.groups,
            final(self)@.links == old(self)@.links,
    {
        let idx = self.layers.len();
        self.layers.push(Layer::new(width, height, numbered_layer_name(idx + 1)));
        self.active = idx;
        assert(self@.layers.subrange(0, idx as int) =~= old(self)@.layers);
        assert forall|k: int| 0 <= k < self@.layers.len() implies (#[trigger] self@.layers[k]).wf() by {
            if k < idx {
                assert(self@.layers[k] == old(self)@.layers[k]);
            }
        }
        idx
    }
}


/// `a` and `b` agree on everything but their grids.
pub open spec fn same_props(a: LayerModel, b: LayerModel) -> bool {
    &&& a.name == b.name
    &&& a.visible == b.visible
    &&& a.locked == b.locked
    &&& a.opacity == b.opacity
    &&& a.blend_mode == b.blend_mode
    &&& a.mask == b.mask
    &&& a.group == b.group
    &&& a.link == b.link
    &&& a.accepts_lighting == b.accepts_lighting
    &&& a.casts_shadow == b.casts_shadow
}

/// `r` is `below` with every non-space cell of `above` laid over it, where
/// the two grids overlap.
pub open spec fn is_merge(r: GridModel, below: GridModel, above: GridModel) -> bool {
    &&& r.wf()
    &&& r.width == below.width
    &&& r.height == below.height
    &&& forall|x: int, y: int| #![trigger r.cell(x, y)]
        r.in_bounds(x, y) ==> r.cell(x, y) == (if above.in_bounds(x, y) && above.cell(x, y).ch
            != ' ' {
            above.cell(x, y)
        } else {
            below.cell(x, y)
        })
}

/// `r` is `g` cut or padded with blank cells to `width` x `height`.
pub open spec fn is_resize(r: GridModel, g: GridModel, width: nat, height: nat) -> bool {
    &&& r.wf()
    &&& r.width == width
    &&& r.height == height
    &&& forall|x: int, y: int| #![trigger r.cell(x, y)]
        r.in_bounds(x, y) ==> r.cell(x, y) == (if g.in_bounds(x, y) {
            g.cell(x, y)
        } else {
            blank_cell()
        })
}

/// The active index after the layer at `index` was removed from a stack of
/// `len` layers.
pub open spec fn active_after_delete(active: nat, index: nat, len: nat) -> nat {
    if active >= len - 1 {
        (len - 2) as nat
    } else if active > 0 && index <= active {
        (active - 1) as nat
    } else {
        active
    }
}

/// `s` with the entry at `from` moved to position `to`.
pub open spec fn moved<T>(s: Seq<T>, from: int, to: int) -> Seq<T> {
    s.remove(from).insert(to, s[from])
}

/// The active index after the layer at `from` moved to `to`.
pub open spec fn active_after_reorder(active: nat, from: nat, to: nat) -> nat {
    if active == from {
        to
    } else if from < active && to >= active {
        (active - 1) as nat
    } else if from > active && to <= active {
        active + 1
    } else {
        active
    }
}

/// `s` with the entries at `a` and `a + 1` exchanged.
pub open spec fn swap_adjacent<T>(s: Seq<T>, a: int) -> Seq<T> {
    s.update(a, s[a + 1]).update(a + 1, s[a])
}

/// The active index after the layers at `a` and `a + 1` swapped places.
pub open spec fn active_after_swap(active: nat, a: nat) -> nat {
    if active == a {
        a + 1
    } else if active == a + 1 {
        a
    } else {
        active
    }
}

/// Lay every non-space cell of `src` over `dst` where the grids overlap.
fn overlay_nonblank(dst: &mut CanvasBuffer, src: &CanvasBuffer)
    requires
        old(dst)@.wf(),
        src@.wf(),
    ensures
        is_merge(final(dst)@, old(dst)@, src@),
{
    let h = if dst.height() < src.height() {
        dst.height()
    } else {
        src.height()
    };
    let w = if dst.width() < src.width() {
        dst.width()
    } else {
        src.width()
    };
    let ghost below = dst@;
    let mut y: usize = 0;
    while y < h
        invariant
            h == (if below.height < src@.height { below.height } else { src@.height }),
            w == (if below.width < src@.width { below.width } else { src@.width }),
            h <= below.height,
            h <= src@.height,
            w <= below.width,
            w <= src@.width,
            y <= h,
            src@.wf(),
            below.wf(),
            dst@.wf(),
            dst@.width == below.width,
            dst@.height == below.height,
            forall|i: int, j: int| #![trigger dst@.cell(i, j)]
                dst@.in_bounds(i, j) ==> dst@.cell(i, j) == (if j < y && src@.in_bounds(i, j)
                    && src@.cell(i, j).ch != ' ' {
                    src@.cell(i, j)
                } else {
                    below.cell(i, j)
                }),
        decreases h - y,
    {
        let mut x: usize = 0;
        while x < w
            invariant
                h == (if below.height < src@.height { below.height } else { src@.height }),
                w == (if below.width < src@.width { below.width } else { src@.width }),
                h <= below.height,
                h <= src@.height,
                w <= below.width,
                w <= src@.width,
                y < h,
                x <= w,
                src@.wf(),
                below.wf(),
                dst@.wf(),
                dst@.width == below.width,
                dst@.height == below.height,
                forall|i: int, j: int| #![trigger dst@.cell(i, j)]
                    dst@.in_bounds(i, j) ==> dst@.cell(i, j) == (if (j < y || (j == y && i < x))
                        && src@.in_bounds(i, j) && src@.cell(i, j).ch != ' ' {
                        src@.cell(i, j)
                    } else {
                        below.cell(i, j)
                    }),
            decreases w - x,
        {
            if let Some(cell) = src.get(x, y) {
                if cell.ch != ' ' {
                    dst.set(x, y, *cell);
                }
            }
            x = x + 1;
        }
        y = y + 1;
    }
}

/// A copy of `src` cut or padded with blank cells to `width` x `height`.
fn resized_copy(src: &CanvasBuffer, width: usize, height: usize) -> (r: CanvasBuffer)
    requires
        src@.wf(),
    ensures
        is_resize(r@, src@, width as nat, height as nat),
{
    let mut out = CanvasBuffer::new(width, height);
    let h = if src.height() < height {
        src.height()
    } else {
        height
    };
    let w = if src.width() < width {
        src.width()
    } else {
        width
    };
    let mut y: usize = 0;
    while y < h
        invariant
            h == (if src@.height < height { src@.height } else { height as nat }),
            w == (if src@.width < width { src@.width } else { width as nat }),
            h <= height,
            h <= src@.height,
            w <= width,
            w <= src@.width,
            y <= h,
            src@.wf(),
            out@.wf(),
            out@.width == width,
            out@.height == height,
            forall|i: int, j: int| #![trigger out@.cell(i, j)]
                out@.in_bounds(i, j) ==> out@.cell(i, j) == (if j < y && src@.in_bounds(i, j) {
                    src@.cell(i, j)
                } else {
                    blank_cell()
                }),
        decreases h - y,
    {
        let mut x: usize = 0;
        while x < w
            invariant
                h == (if src@.height < height { src@.height } else { height as nat }),
                w == (if src@.width < width { src@.width } else { width as nat }),
                h <= height,
                h <= src@.height,
                w <= width,
                w <= src@.width,
                y < h,
                x <= w,
                src@.wf(),
                out@.wf(),
                out@.width == width,
                out@.height == height,
                forall|i: int, j: int| #![trigger out@.cell(i, j)]
                    out@.in_bounds(i, j) ==> out@.cell(i, j) == (if (j < y || (j == y && i < x))
                        && src@.in_bounds(i, j) {
                        src@.cell(i, j)
                    } else {
                        blank_cell()
                    }),
            decreases w - x,
        {
            if let Some(cell) = src.get(x, y) {
                out.set(x, y, *cell);
            }
            x = x + 1;
        }
        y = y + 1;
    }
    out
}

impl LayerStack {
    /// The active layer for editing (the top one when the index is past the
    /// end).
    pub fn active_layer_mut(&mut self) -> (l: &mut Layer)
        requires
            old(self)@.layers.len() > 0,
        ensures
            *l == old(self).layers@[clamp_index(
                old(self)@.active,
                old(self)@.layers.len(),
            ) as int],
            final(self).layers@ == old(self).layers@.update(
                clamp_index(old(self)@.active, old(self)@.layers.len()) as int,
                *final(l),
            ),
            final(self).active == old(self).active,
            final(self).groups@ == old(self).groups@,
            final(self).links@ == old(self).links@,
    {
        let last = self.layers.len() - 1;
        let idx = if self.active < last {
            self.active
        } else {
            last
        };
        &mut self.layers[idx]
    }

    /// Remove the layer at `index`; refused when it does not exist or is the
    /// only layer.
    pub fn delete(&mut self, index: usize) -> (r: bool)
        requires
            old(self)@.wf(),
        ensures
            final(self)@.wf(),
            r == (index < old(self)@.layers.len() && old(self)@.layers.len() > 1),
            !r ==> final(self)@ == old(self)@,
            r ==> final(self)@.layers == old(self)@.layers.remove(index as int),
            r ==> final(self)@.active == active_after_delete(
                old(self)@.active,
                index as nat,
                old(self)@.layers.len(),
            ),
            final(self)@.groups == old(self)@.groups,
            final(self)@.links == old(self)@.links,
    {
        if index >= self.layers.len() || self.layers.len() <= 1 {
            return false;
        }
        self.layers.remove(index);
        if self.active >= self.layers.len() {
            self.active = self.layers.len() - 1;
        } else if self.active > 0 && index <= self.active {
            self.active = self.active - 1;
        }
        assert(self@.layers =~= old(self)@.layers.remove(index as int));
        true
    }

    /// Append a copy of the layer at `index` and make it active.
    pub fn duplicate(&mut self, index: usize) -> (r: bool)
        requires
            old(self)@.wf(),
            old(self)@.layers.len() < usize::MAX,
        ensures
            final(self)@.wf(),
            r == (index < old(self)@.layers.len()),
            !r ==> final(self)@ == old(self)@,
            r ==> final(self)@.layers == old(self)@.layers.push(old(self)@.layers[index as int]),
            r ==> final(self)@.active == old(self)@.layers.len(),
            final(self)@.groups == old(self)@.groups,
            final(self)@.links == old(self)@.links,
    {
        if index >= self.layers.len() {
            return false;
        }
        assert(old(self)@.layers[index as int] == self.layers@[index as int]@);
        let copy = self.layers[index].duplicate();
        let idx = self.layers.len();
        self.layers.push(copy);
        self.active = idx;
        assert(self@.layers =~= old(self)@.layers.push(old(self)@.layers[index as int]));
        true
    }

    /// Merge the layer at `index` into the one beneath it: the upper
    /// layer's non-space cells overwrite the lower one's, then the upper
    /// layer is removed and the lower one becomes active. Refused for the
    /// bottom layer, a missing index, or a locked upper layer.
    pub fn merge_down(&mut self, index: usize) -> (r: bool)
        requires
            old(self)@.wf(),
        ensures
            final(self)@.wf(),
            r == (index > 0 && index < old(self)@.layers.len() && !old(self)@.layers[
                index as int
            ].locked),
            !r ==> final(self)@ == old(self)@,
            r ==> {
                let below = old(self)@.layers[index - 1];
                let above = old(self)@.layers[index as int];
                &&& final(self)@.layers.len() == old(self)@.layers.len() - 1
                &&& forall|i: int|
                    0 <= i < final(self)@.layers.len() && i != index - 1 ==> #[trigger] final(self)@.layers[i]
                        == old(self)@.layers.remove(index as int)[i]
                &&& same_props(final(self)@.layers[index - 1], below)
                &&& is_merge(final(self)@.layers[index - 1].grid, below.grid, above.grid)
                &&& final(self)@.active == index - 1
            },
            final(self)@.groups == old(self)@.groups,
            final(self)@.links == old(self)@.links,
    {
        if index == 0 || index >= self.layers.len() {
            return false;
        }
        if self.layers[index].locked {
            return false;
        }
        let ghost old_layers = self@.layers;
        assert(old_layers[index as int] == self.layers@[index as int]@);
        assert(old_layers[index - 1] == self.layers@[index - 1]@);
        let above = self.layers.remove(index);
        overlay_nonblank(&mut self.layers[index - 1].buffer, &above.buffer);
        self.active = index - 1;
        assert forall|i: int| 0 <= i < self@.layers.len() && i != index - 1 implies #[trigger] self@.layers[i]
            == old_layers.remove(index as int)[i] by {}
        assert forall|i: int| 0 <= i < self@.layers.len() implies (#[trigger] self@.layers[i]).wf() by {
            if i != index - 1 {
                assert(self@.layers[i] == old_layers.remove(index as int)[i]);
            }
        }
        true
    }

    /// Swap the layer at `index` with the one above it.
    pub fn move_up(&mut self, index: usize) -> (r: bool)
        requires
            old(self)@.wf(),
            index < usize::MAX,
        ensures
            final(self)@.wf(),
            r == (index + 1 < old(self)@.layers.len()),
            !r ==> final(self)@ == old(self)@,
            r ==> final(self)@.layers == swap_adjacent(old(self)@.layers, index as int),
            r ==> final(self)@.active == active_after_swap(old(self)@.active, index as nat),
            final(self)@.groups == old(self)@.groups,
            final(self)@.links == old(self)@.links,
    {
        if index + 1 >= self.layers.len() {
            return false;
        }
        let l = self.layers.remove(index + 1);
        self.layers.insert(index, l);
        if self.active == index {
            self.active = index + 1;
        } else if self.active == index + 1 {
            self.active = index;
        }
        assert(self@.layers =~= old(self)@.layers.update(
            index as int,
            old(self)@.layers[index + 1],
        ).update(index + 1, old(self)@.layers[index as int]));
        true
    }

    /// Swap the layer at `index` with the one below it.
    pub fn move_down(&mut self, index: usize) -> (r: bool)
        requires
            old(self)@.wf(),
        ensures
            final(self)@.wf(),
            r == (index > 0 && index < old(self)@.layers.len()),
            !r ==> final(self)@ == old(self)@,
            r ==> final(self)@.layers == swap_adjacent(old(self)@.layers, index - 1),
            r ==> final(self)@.active == active_after_swap(old(self)@.active, (index - 1) as nat),
            final(self)@.groups == old(self)@.groups,
            final(self)@.links == old(self)@.links,
    {
        if index == 0 || index >= self.layers.len() {
            return false;
        }
        let l = self.layers.remove(index);
        self.layers.insert(index - 1, l);
        if self.active == index {
            self.active = index - 1;
        } else if self.active == index - 1 {
            self.active = index;
        }
        assert(self@.layers =~= old(self)@.layers.update(
            index - 1,
            old(self)@.layers[index as int],
        ).update(index as int, old(self)@.layers[index - 1]));
        true
    }

    /// Move the layer at `from` to position `to`, shifting the layers in
    /// between.
    pub fn reorder(&mut self, from: usize, to: usize) -> (r: bool)
        requires
            old(self)@.wf(),
        ensures
            final(self)@.wf(),
            r == (from < old(self)@.layers.len() && to < old(self)@.layers.len() && from != to),
            !r ==> final(self)@ == old(self)@,
            r ==> final(self)@.layers == moved(old(self)@.layers, from as int, to as int),
            r ==> final(self)@.active == active_after_reorder(
                old(self)@.active,
                from as nat,
                to as nat,
            ),
            final(self)@.groups == old(self)@.groups,
            final(self)@.links == old(self)@.links,
    {
        if from >= self.layers.len() || to >= self.layers.len() || from == to {
            return false;
        }
        let layer = self.layers.remove(from);
        self.layers.insert(to, layer);
        if self.active == from {
            self.active = to;
        } else {
            if from < self.active && to >= self.active {
                self.active = self.active - 1;
            } else if from > self.active && to <= self.active {
                self.active = self.active + 1;
            }
        }
        assert(self@.layers =~= old(self)@.layers.remove(from as int).insert(
            to as int,
            old(self)@.layers[from as int],
        ));
        true
    }

    /// Make the layer at `index` active, if it exists.
    pub fn set_active(&mut self, index: usize)
        ensures
            final(self)@.layers == old(self)@.layers,
            final(self)@.active == (if index < old(self)@.layers.len() {
                index as nat
            } else {
                old(self)@.active
            }),
            final(self)@.groups == old(self)@.groups,
            final(self)@.links == old(self)@.links,
    {
        if index < self.layers.len() {
            self.active = index;
        }
    }

    /// Give every layer the size `width` x `height`, keeping the cells that
    /// still fit and filling new space with blank cells. Masks keep their
    /// size.
    pub fn resize_all(&mut self, width: usize, height: usize)
        requires
            old(self)@.wf(),
        ensures
            final(self)@.wf(),
            final(self)@.layers.len() == old(self)@.layers.len(),
            forall|i: int| 0 <= i < final(self)@.layers.len() ==> {
                &&& same_props(#[trigger] final(self)@.layers[i], old(self)@.layers[i])
                &&& is_resize(
                    final(self)@.layers[i].grid,
                    old(self)@.layers[i].grid,
                    width as nat,
                    height as nat,
                )
            },
            final(self)@.active == old(self)@.active,
            final(self)@.groups == old(self)@.groups,
            final(self)@.links == old(self)@.links,
    {
        let mut i: usize = 0;
        while i < self.layers.len()
            invariant
                i <= self@.layers.len(),
                self@.layers.len() == old(self)@.layers.len(),
                old(self)@.wf(),
                forall|k: int| 0 <= k < self@.layers.len() ==> (#[trigger] self@.layers[k]).wf(),
                forall|k: int| 0 <= k < i ==> {
                    &&& same_props(#[trigger] self@.layers[k], old(self)@.layers[k])
                    &&& is_resize(
                        self@.layers[k].grid,
                        old(self)@.layers[k].grid,
                        width as nat,
                        height as nat,
                    )
                },
                forall|k: int| i <= k < self@.layers.len() ==> #[trigger] self@.layers[k]
                    == old(self)@.layers[k],
                self.active == old(self).active,
                self@.groups == old(self)@.groups,
                self@.links == old(self)@.links,
            decreases self@.layers.len() - i,
        {
            assert(self@.layers[i as int] == self.layers@[i as int]@);
            let ghost before = self@.layers[i as int];
            let ghost prev = self@.layers;
            if self.layers[i].buffer.width() != width || self.layers[i].buffer.height() != height {
                let new_buf = resized_copy(&self.layers[i].buffer, width, height);
                self.layers[i].buffer = new_buf;
            } else {
                proof {
                    let g = before.grid;
                    assert forall|x: int, y: int| #![trigger g.cell(x, y)]
                        g.in_bounds(x, y) implies g.cell(x, y) == (if g.in_bounds(x, y) {
                        g.cell(x, y)
                    } else {
                        blank_cell()
                    }) by {}
                }
            }
            assert forall|k: int| 0 <= k < self@.layers.len() && k != i implies #[trigger] self@.layers[k]
                == prev[k] by {}
            assert(self@.layers[i as int] == self.layers@[i as int]@);
            i = i + 1;
        }
    }
}


/// A group or link index after the entry at `removed` was deleted: members
/// of the deleted entry lose it, later entries move down by one.
pub open spec fn shift_after_remove(o: Option<usize>, removed: usize) -> Option<usize> {
    match o {
        Some(k) => if k == removed {
            None
        } else if k > removed {
            Some((k - 1) as usize)
        } else {
            Some(k)
        },
        None => None,
    }
}

/// The indices `i < n`, in increasing order, of the layers in group `g`.
pub open spec fn group_members(layers: Seq<LayerModel>, g: usize, n: nat) -> Seq<usize>
    decreases n,
{
    if n == 0 {
        Seq::empty()
    } else {
        let rest = group_members(layers, g, (n - 1) as nat);
        if layers[n - 1].group == Some(g) {
            rest.push((n - 1) as usize)
        } else {
            rest
        }
    }
}

/// The indices `i < n`, in increasing order, of the layers in link `k`.
pub open spec fn link_members(layers: Seq<LayerModel>, k: usize, n: nat) -> Seq<usize>
    decreases n,
{
    if n == 0 {
        Seq::empty()
    } else {
        let rest = link_members(layers, k, (n - 1) as nat);
        if layers[n - 1].link == Some(k) {
            rest.push((n - 1) as usize)
        } else {
            rest
        }
    }
}

/// Whether every index in `indices` names a layer of a stack of `len`.
pub open spec fn all_below(indices: Seq<usize>, len: nat) -> bool {
    forall|j: int| 0 <= j < indices.len() ==> #[trigger] indices[j] < len
}

/// Link `l` of `s` is dissolved when `indices` are linked: some layer in
/// `indices` currently belongs to it.
pub open spec fn link_taken(s: StackModel, indices: Seq<usize>, l: nat) -> bool {
    &&& l < s.links.len()
    &&& exists|j: int| 0 <= j < indices.len() && #[trigger] s.layers[indices[j] as int].link == Some(
        l as usize,
    )
}

/// The number of links below `l` that are dissolved when `indices` are
/// linked.
pub open spec fn taken_below(s: StackModel, indices: Seq<usize>, l: nat) -> nat
    decreases l,
{
    if l == 0 {
        0
    } else {
        taken_below(s, indices, (l - 1) as nat) + (if link_taken(s, indices, (l - 1) as nat) {
            1nat
        } else {
            0nat
        })
    }
}

/// The links of `s` that survive linking `indices`, in order.
pub open spec fn surviving_links(s: StackModel, indices: Seq<usize>, n: nat) -> Seq<Seq<usize>>
    decreases n,
{
    if n == 0 {
        Seq::empty()
    } else {
        let rest = surviving_links(s, indices, (n - 1) as nat);
        if link_taken(s, indices, (n - 1) as nat) {
            rest
        } else {
            rest.push(s.links[n - 1])
        }
    }
}

/// The link of a layer outside `indices` after `indices` are linked.
pub open spec fn relinked(s: StackModel, indices: Seq<usize>, o: Option<usize>) -> Option<usize> {
    match o {
        Some(l) => if link_taken(s, indices, l as nat) {
            None
        } else {
            Some((l - taken_below(s, indices, l as nat)) as usize)
        },
        None => None,
    }
}

/// `a` and `b` agree on everything but the named field.
pub open spec fn same_but_group(a: LayerModel, b: LayerModel) -> bool {
    a == LayerModel { group: a.group, ..b }
}

pub open spec fn same_but_link(a: LayerModel, b: LayerModel) -> bool {
    a == LayerModel { link: a.link, ..b }
}

pub open spec fn same_but_mask(a: LayerModel, b: LayerModel) -> bool {
    a == LayerModel { mask: a.mask, ..b }
}

/// The layer at `index` with its visibility flipped; linked layers follow.
pub open spec fn visibility_toggled(s: StackModel, index: int, j: int) -> LayerModel {
    let v = !s.layers[index].visible;
    if j == index || (s.layers[index].link.is_some() && s.layers[j].link == s.layers[index].link) {
        LayerModel { visible: v, ..s.layers[j] }
    } else {
        s.layers[j]
    }
}

/// The layer at `index` with its lock flipped; linked layers follow.
pub open spec fn lock_toggled(s: StackModel, index: int, j: int) -> LayerModel {
    let v = !s.layers[index].locked;
    if j == index || (s.layers[index].link.is_some() && s.layers[j].link == s.layers[index].link) {
        LayerModel { locked: v, ..s.layers[j] }
    } else {
        s.layers[j]
    }
}

impl LayerStack {
    /// Put the layers at `indices` into a new group named `name`; returns
    /// the new group's index. Refused for an empty list or a missing layer.
    pub fn create_group(&mut self, indices: &[usize], name: String) -> (r: Option<usize>)
        requires
            old(self)@.wf(),
        ensures
            final(self)@.wf(),
            r.is_some() == (indices@.len() > 0 && all_below(indices@, old(self)@.layers.len())),
            r.is_none() ==> final(self)@ == old(self)@,
            r.is_some() ==> {
                &&& r == Some(old(self)@.groups.len() as usize)
                &&& final(self)@.groups == old(self)@.groups.push(
                    GroupModel { name: name@, collapsed: false },
                )
                &&& final(self)@.layers.len() == old(self)@.layers.len()
                &&& forall|i: int| 0 <= i < final(self)@.layers.len() ==> {
                    &&& same_but_group(#[trigger] final(self)@.layers[i], old(self)@.layers[i])
                    &&& final(self)@.layers[i].group == (if indices@.contains(i as usize) {
                        r
                    } else {
                        old(self)@.layers[i].group
                    })
                }
                &&& final(self)@.active == old(self)@.active
                &&& final(self)@.links == old(self)@.links
            },
    {
        if indices.len() == 0 {
            return None;
        }
        let mut j: usize = 0;
        while j < indices.len()
            invariant
                j <= indices@.len(),
                self@ == old(self)@,
                old(self)@.wf(),
                forall|k: int| 0 <= k < j ==> #[trigger] indices@[k] < self@.layers.len(),
            decreases indices@.len() - j,
        {
            if indices[j] >= self.layers.len() {
                return None;
            }
            j = j + 1;
        }
        let group_idx = self.groups.len();
        self.groups.push(LayerGroup::new(name));
        let n_layers = self.layers.len();
        let mut j: usize = 0;
        while j < indices.len()
            invariant
                j <= indices@.len(),
                self@.layers.len() == n_layers,
                all_below(indices@, old(self)@.layers.len()),
                group_idx == old(self)@.groups.len(),
                self@.layers.len() == old(self)@.layers.len(),
                forall|i: int| 0 <= i < self@.layers.len() ==> {
                    &&& same_but_group(#[trigger] self@.layers[i], old(self)@.layers[i])
                    &&& self@.layers[i].group == (if indices@.subrange(0, j as int).contains(
                        i as usize,
                    ) {
                        Some(group_idx)
                    } else {
                        old(self)@.layers[i].group
                    })
                },
                self@.active == old(self)@.active,
                self@.links == old(self)@.links,
                self@.groups == old(self)@.groups.push(GroupModel { name: name@, collapsed: false }),
            decreases indices@.len() - j,
        {
            let idx = indices[j];
            let ghost prev = self@.layers;
            assert(prev[idx as int] == self.layers@[idx as int]@);
            self.layers[idx].group = Some(group_idx);
            assert(self@.layers[idx as int] == self.layers@[idx as int]@);
            proof {
                broadcast use vstd::seq_lib::group_seq_properties;

                assert forall|i: int| 0 <= i < self@.layers.len() implies {
                    &&& same_but_group(#[trigger] self@.layers[i], old(self)@.layers[i])
                    &&& self@.layers[i].group == (if indices@.subrange(0, j + 1).contains(
                        i as usize,
                    ) {
                        Some(group_idx)
                    } else {
                        old(self)@.layers[i].group
                    })
                } by {
                    let sub0 = indices@.subrange(0, j as int);
                    let sub1 = indices@.subrange(0, j + 1);
                    assert(sub1 =~= sub0.push(idx));
                    if i != idx {
                        assert(self@.layers[i] == prev[i]);
                        assert(sub1.contains(i as usize) == sub0.contains(i as usize));
                    } else {
                        assert(sub1[j as int] == idx);
                        assert(sub1.contains(i as usize));
                        assert(same_but_group(prev[i], old(self)@.layers[i]));
                        assert(self@.layers[i] == LayerModel { group: Some(group_idx), ..prev[i] });
                    }
                }
            }
            j = j + 1;
        }
        assert(indices@.subrange(0, indices@.len() as int) =~= indices@);
        assert forall|i: int| 0 <= i < self@.layers.len() implies (#[trigger] self@.layers[i]).wf() by {
            assert(same_but_group(self@.layers[i], old(self)@.layers[i]));
        }
        Some(group_idx)
    }

    /// Delete group `group_idx`: its layers leave it, later groups move down
    /// by one.
    pub fn remove_group(&mut self, group_idx: usize) -> (r: bool)
        requires
            old(self)@.wf(),
        ensures
            final(self)@.wf(),
            r == (group_idx < old(self)@.groups.len()),
            !r ==> final(self)@ == old(self)@,
            r ==> final(self)@.groups == old(self)@.groups.remove(group_idx as int),
            r ==> final(self)@.layers.len() == old(self)@.layers.len(),
            r ==> forall|i: int| 0 <= i < final(self)@.layers.len() ==> {
                &&& same_but_group(#[trigger] final(self)@.layers[i], old(self)@.layers[i])
                &&& final(self)@.layers[i].group == shift_after_remove(
                    old(self)@.layers[i].group,
                    group_idx,
                )
            },
            final(self)@.active == old(self)@.active,
            final(self)@.links == old(self)@.links,
    {
        if group_idx >= self.groups.len() {
            return false;
        }
        let mut i: usize = 0;
        while i < self.layers.len()
            invariant
                i <= self@.layers.len(),
                self@.layers.len() == old(self)@.layers.len(),
                forall|k: int| 0 <= k < self@.layers.len() ==> {
                    &&& same_but_group(#[trigger] self@.layers[k], old(self)@.layers[k])
                    &&& self@.layers[k].group == (if k < i {
                        shift_after_remove(old(self)@.layers[k].group, group_idx)
                    } else {
                        old(self)@.layers[k].group
                    })
                },
                self@.active == old(self)@.active,
                self@.links == old(self)@.links,
                self@.groups == old(self)@.groups,
            decreases self@.layers.len() - i,
        {
            let ghost prev = self@.layers;
            assert(prev[i as int] == self.layers@[i as int]@);
            let g = self.layers[i].group;
            let ng = match g {
                Some(k) => if k == group_idx {
                    None
                } else if k > group_idx {
                    Some(k - 1)
                } else {
                    Some(k)
                },
                None => None,
            };
            self.layers[i].group = ng;
            assert forall|k: int| 0 <= k < self@.layers.len() && k != i implies #[trigger] self@.layers[k]
                == prev[k] by {}
            i = i + 1;
        }
        self.groups.remove(group_idx);
        assert(self@.groups =~= old(self)@.groups.remove(group_idx as int));
        assert forall|k: int| 0 <= k < self@.layers.len() implies (#[trigger] self@.layers[k]).wf() by {
            assert(same_but_group(self@.layers[k], old(self)@.layers[k]));
        }
        true
    }

    /// Fold or unfold group `group_idx`.
    pub fn toggle_group_collapsed(&mut self, group_idx: usize) -> (r: bool)
        ensures
            r == (group_idx < old(self)@.groups.len()),
            !r ==> final(self)@ == old(self)@,
            r ==> final(self)@.groups == old(self)@.groups.update(
                group_idx as int,
                GroupModel {
                    name: old(self)@.groups[group_idx as int].name,
                    collapsed: !old(self)@.groups[group_idx as int].collapsed,
                },
            ),
            final(self)@.layers == old(self)@.layers,
            final(self)@.active == old(self)@.active,
            final(self)@.links == old(self)@.links,
    {
        if group_idx < self.groups.len() {
            let c = self.groups[group_idx].collapsed;
            self.groups[group_idx].collapsed = !c;
            assert(self@.groups =~= old(self)@.groups.update(
                group_idx as int,
                GroupModel {
                    name: old(self)@.groups[group_idx as int].name,
                    collapsed: !old(self)@.groups[group_idx as int].collapsed,
                },
            ));
            true
        } else {
            false
        }
    }

    /// Rename group `group_idx`.
    pub fn rename_group(&mut self, group_idx: usize, name: String) -> (r: bool)
        ensures
            r == (group_idx < old(self)@.groups.len()),
            !r ==> final(self)@ == old(self)@,
            r ==> final(self)@.groups == old(self)@.groups.update(
                group_idx as int,
                GroupModel { name: name@, collapsed: old(self)@.groups[group_idx as int].collapsed },
            ),
            final(self)@.layers == old(self)@.layers,
            final(self)@.active == old(self)@.active,
            final(self)@.links == old(self)@.links,
    {
        if group_idx < self.groups.len() {
            self.groups[group_idx].name = name;
            assert(self@.groups =~= old(self)@.groups.update(
                group_idx as int,
                GroupModel { name: name@, collapsed: old(self)@.groups[group_idx as int].collapsed },
            ));
            true
        } else {
            false
        }
    }

    /// Rename the layer at `index`; a name of only white space is refused.
    pub fn rename(&mut self, index: usize, name: String) -> (r: bool)
        requires
            old(self)@.wf(),
        ensures
            final(self)@.wf(),
            r == (!is_blank_text(name@) && index < old(self)@.layers.len()),
            !r ==> final(self)@ == old(self)@,
            r ==> final(self)@.layers == old(self)@.layers.update(
                index as int,
                LayerModel { name: name@, ..old(self)@.layers[index as int] },
            ),
            final(self)@.active == old(self)@.active,
            final(self)@.groups == old(self)@.groups,
            final(self)@.links == old(self)@.links,
    {
        if is_blank(name.as_str()) {
            return false;
        }
        if index < self.layers.len() {
            self.layers[index].name = name;
            assert(self@.layers =~= old(self)@.layers.update(
                index as int,
                LayerModel { name: name@, ..old(self)@.layers[index as int] },
            ));
            true
        } else {
            false
        }
    }

    /// The group of the layer at `layer_idx`, if both exist.
    pub fn group_of_layer(&self, layer_idx: usize) -> (r: Option<usize>)
        ensures
            r == (if layer_idx < self@.layers.len() {
                self@.layers[layer_idx as int].group
            } else {
                None
            }),
    {
        if layer_idx < self.layers.len() {
            self.layers[layer_idx].group
        } else {
            None
        }
    }

    /// The indices, in increasing order, of the layers in group `group_idx`.
    pub fn layers_in_group(&self, group_idx: usize) -> (r: Vec<usize>)
        ensures
            r@ == group_members(self@.layers, group_idx, self@.layers.len()),
    {
        let mut r: Vec<usize> = Vec::new();
        let mut i: usize = 0;
        while i < self.layers.len()
            invariant
                i <= self@.layers.len(),
                r@ == group_members(self@.layers, group_idx, i as nat),
            decreases self@.layers.len() - i,
        {
            assert(self@.layers[i as int] == self.layers@[i as int]@);
            if self.layers[i].group == Some(group_idx) {
                r.push(i);
            }
            i = i + 1;
        }
        r
    }

    /// The link of the layer at `layer_idx`, if both exist.
    pub fn link_of_layer(&self, layer_idx: usize) -> (r: Option<usize>)
        ensures
            r == (if layer_idx < self@.layers.len() {
                self@.layers[layer_idx as int].link
            } else {
                None
            }),
    {
        if layer_idx < self.layers.len() {
            self.layers[layer_idx].link
        } else {
            None
        }
    }

    /// The indices, in increasing order, of the layers in link `link_idx`.
    pub fn layers_in_link(&self, link_idx: usize) -> (r: Vec<usize>)
        ensures
            r@ == link_members(self@.layers, link_idx, self@.layers.len()),
    {
        let mut r: Vec<usize> = Vec::new();
        let mut i: usize = 0;
        while i < self.layers.len()
            invariant
                i <= self@.layers.len(),
                r@ == link_members(self@.layers, link_idx, i as nat),
            decreases self@.layers.len() - i,
        {
            assert(self@.layers[i as int] == self.layers@[i as int]@);
            if self.layers[i].link == Some(link_idx) {
                r.push(i);
            }
            i = i + 1;
        }
        r
    }

    /// Dissolve link `link_idx`: its layers leave it, later links move down
    /// by one.
    pub fn unlink_layers(&mut self, link_idx: usize) -> (r: bool)
        requires
            old(self)@.wf(),
        ensures
            final(self)@.wf(),
            r == (link_idx < old(self)@.links.len()),
            !r ==> final(self)@ == old(self)@,
            r ==> final(self)@.links == old(self)@.links.remove(link_idx as int),
            r ==> final(self)@.layers.len() == old(self)@.layers.len(),
            r ==> forall|i: int| 0 <= i < final(self)@.layers.len() ==> {
                &&& same_but_link(#[trigger] final(self)@.layers[i], old(self)@.layers[i])
                &&& final(self)@.layers[i].link == shift_after_remove(
                    old(self)@.layers[i].link,
                    link_idx,
                )
            },
            final(self)@.active == old(self)@.active,
            final(self)@.groups == old(self)@.groups,
    {
        if link_idx >= self.links.len() {
            return false;
        }
        let mut i: usize = 0;
        while i < self.layers.len()
            invariant
                i <= self@.layers.len(),
                self@.layers.len() == old(self)@.layers.len(),
                forall|k: int| 0 <= k < self@.layers.len() ==> {
                    &&& same_but_link(#[trigger] self@.layers[k], old(self)@.layers[k])
                    &&& self@.layers[k].link == (if k < i {
                        shift_after_remove(old(self)@.layers[k].link, link_idx)
                    } else {
                        old(self)@.layers[k].link
                    })
                },
                self@.active == old(self)@.active,
                self@.links == old(self)@.links,
                self@.groups == old(self)@.groups,
            decreases self@.layers.len() - i,
        {
            let ghost prev = self@.layers;
            assert(prev[i as int] == self.layers@[i as int]@);
            let l = self.layers[i].link;
            let nl = match l {
                Some(k) => if k == link_idx {
                    None
                } else if k > link_idx {
                    Some(k - 1)
                } else {
                    Some(k)
                },
                None => None,
            };
            self.layers[i].link = nl;
            assert forall|k: int| 0 <= k < self@.layers.len() && k != i implies #[trigger] self@.layers[k]
                == prev[k] by {}
            i = i + 1;
        }
        self.links.remove(link_idx);
        assert(self@.links =~= old(self)@.links.remove(link_idx as int));
        assert forall|k: int| 0 <= k < self@.layers.len() implies (#[trigger] self@.layers[k]).wf() by {
            assert(same_but_link(self@.layers[k], old(self)@.layers[k]));
        }
        true
    }
}


/// No more than `l` of the links below `l` are taken.
proof fn lemma_taken_below_bound(s: StackModel, indices: Seq<usize>, l: nat)
    ensures
        taken_below(s, indices, l) <= l,
    decreases l,
{
    if l > 0 {
        lemma_taken_below_bound(s, indices, (l - 1) as nat);
    }
}

/// Past the last link, the count of taken links stays the same.
proof fn lemma_taken_below_past_end(s: StackModel, indices: Seq<usize>, l: nat)
    requires
        l >= s.links.len(),
    ensures
        taken_below(s, indices, l) == taken_below(s, indices, s.links.len()),
    decreases l,
{
    if l > s.links.len() {
        lemma_taken_below_past_end(s, indices, (l - 1) as nat);
    }
}

impl LayerStack {
    /// Link the layers at `indices` so their visibility and lock state stay
    /// in sync. A layer that already belongs to a link is moved into the new
    /// one: every link that one of them belonged to is dissolved first, and
    /// the remaining links close up. Refused for fewer than two indices or a
    /// missing layer. Returns the new link's index.
    pub fn link_layers(&mut self, indices: &[usize]) -> (r: Option<usize>)
        requires
            old(self)@.wf(),
        ensures
            final(self)@.wf(),
            r.is_some() == (indices@.len() >= 2 && all_below(indices@, old(self)@.layers.len())),
            r.is_none() ==> final(self)@ == old(self)@,
            r.is_some() ==> {
                let kept = surviving_links(old(self)@, indices@, old(self)@.links.len());
                &&& r == Some(kept.len() as usize)
                &&& final(self)@.links == kept.push(indices@)
                &&& final(self)@.layers.len() == old(self)@.layers.len()
                &&& forall|i: int| 0 <= i < final(self)@.layers.len() ==> {
                    &&& same_but_link(#[trigger] final(self)@.layers[i], old(self)@.layers[i])
                    &&& final(self)@.layers[i].link == (if indices@.contains(i as usize) {
                        r
                    } else {
                        relinked(old(self)@, indices@, old(self)@.layers[i].link)
                    })
                }
                &&& final(self)@.active == old(self)@.active
                &&& final(self)@.groups == old(self)@.groups
            },
    {
        if indices.len() < 2 {
            return None;
        }
        let n_layers = self.layers.len();
        let mut j: usize = 0;
        while j < indices.len()
            invariant
                j <= indices@.len(),
                self@ == old(self)@,
                old(self)@.wf(),
                n_layers == self@.layers.len(),
                forall|k: int| 0 <= k < j ==> #[trigger] indices@[k] < n_layers,
            decreases indices@.len() - j,
        {
            if indices[j] >= n_layers {
                return None;
            }
            j = j + 1;
        }
        let ghost s0 = self@;
        let nl = self.links.len();
        // Which links are dissolved.
        let mut taken: Vec<bool> = Vec::new();
        let mut l: usize = 0;
        while l < nl
            invariant
                l <= nl,
                taken@.len() == l,
                forall|k: int| 0 <= k < l ==> !(#[trigger] taken@[k]),
            decreases nl - l,
        {
            taken.push(false);
            l = l + 1;
        }
        let mut j: usize = 0;
        while j < indices.len()
            invariant
                j <= indices@.len(),
                self@ == s0,
                s0 == old(self)@,
                nl == s0.links.len(),
                all_below(indices@, s0.layers.len()),
                taken@.len() == nl,
                forall|k: int| 0 <= k < nl ==> (#[trigger] taken@[k] <==> exists|jj: int|
                    0 <= jj < j && #[trigger] s0.layers[indices@[jj] as int].link == Some(
                        k as usize,
                    )),
            decreases indices@.len() - j,
        {
            let idx = indices[j];
            assert(s0.layers[idx as int] == self.layers@[idx as int]@);
            let ghost prev = taken@;
            if let Some(k) = self.layers[idx].link {
                if k < nl {
                    taken.set(k, true);
                }
            }
            assert forall|k: int| 0 <= k < nl implies (#[trigger] taken@[k] <==> exists|jj: int|
                0 <= jj < j + 1 && #[trigger] s0.layers[indices@[jj] as int].link == Some(
                    k as usize,
                )) by {
                if s0.layers[indices@[j as int] as int].link == Some(k as usize) {
                    assert(0 <= j < j + 1);
                } else {
                    if exists|jj: int|
                        0 <= jj < j + 1 && #[trigger] s0.layers[indices@[jj] as int].link == Some(
                            k as usize,
                        ) {
                        let jj = choose|jj: int|
                            0 <= jj < j + 1 && #[trigger] s0.layers[indices@[jj] as int].link
                                == Some(k as usize);
                        assert(jj < j);
                    }
                }
            }
            j = j + 1;
        }
        assert forall|k: int| 0 <= k < nl implies (#[trigger] taken@[k] == link_taken(
            s0,
            indices@,
            k as nat,
        )) by {}
        // How many dissolved links lie below each position.
        let mut below: Vec<usize> = Vec::new();
        below.push(0);
        let mut l: usize = 0;
        while l < nl
            invariant
                l <= nl,
                nl == s0.links.len(),
                taken@.len() == nl,
                forall|k: int| 0 <= k < nl ==> (#[trigger] taken@[k] == link_taken(
                    s0,
                    indices@,
                    k as nat,
                )),
                below@.len() == l + 1,
                forall|k: int| 0 <= k <= l ==> #[trigger] below@[k] == taken_below(
                    s0,
                    indices@,
                    k as nat,
                ),
            decreases nl - l,
        {
            proof {
                lemma_taken_below_bound(s0, indices@, l as nat);
            }
            let b = below[l];
            if taken[l] {
                below.push(b + 1);
            } else {
                below.push(b);
            }
            l = l + 1;
        }
        // Renumber or drop each layer's link.
        let mut i: usize = 0;
        while i < self.layers.len()
            invariant
                i <= self@.layers.len(),
                self@.layers.len() == s0.layers.len(),
                nl == s0.links.len(),
                taken@.len() == nl,
                forall|k: int| 0 <= k < nl ==> (#[trigger] taken@[k] == link_taken(
                    s0,
                    indices@,
                    k as nat,
                )),
                below@.len() == nl + 1,
                forall|k: int| 0 <= k <= nl ==> #[trigger] below@[k] == taken_below(
                    s0,
                    indices@,
                    k as nat,
                ),
                forall|k: int| 0 <= k < self@.layers.len() ==> {
                    &&& same_but_link(#[trigger] self@.layers[k], s0.layers[k])
                    &&& self@.layers[k].link == (if k < i {
                        relinked(s0, indices@, s0.layers[k].link)
                    } else {
                        s0.layers[k].link
                    })
                },
                self@.active == s0.active,
                self@.groups == s0.groups,
                self@.links == s0.links,
            decreases self@.layers.len() - i,
        {
            let ghost prev = self@.layers;
            assert(prev[i as int] == self.layers@[i as int]@);
            let nlink = match self.layers[i].link {
                Some(k) => {
                    proof {
                        lemma_taken_below_bound(s0, indices@, k as nat);
                        if k >= nl {
                            lemma_taken_below_past_end(s0, indices@, k as nat);
                        }
                    }
                    if k < nl {
                        if taken[k] {
                            None
                        } else {
                            Some(k - below[k])
                        }
                    } else {
                        Some(k - below[nl])
                    }
                },
                None => None,
            };
            self.layers[i].link = nlink;
            assert forall|k: int| 0 <= k < self@.layers.len() && k != i implies #[trigger] self@.layers[k]
                == prev[k] by {}
            i = i + 1;
        }
        // Keep the surviving links, in order.
        let mut kept: Vec<LayerLink> = Vec::new();
        let mut l: usize = 0;
        while l < nl
            invariant
                l <= nl,
                nl == s0.links.len(),
                self@.links == s0.links,
                taken@.len() == nl,
                forall|k: int| 0 <= k < nl ==> (#[trigger] taken@[k] == link_taken(
                    s0,
                    indices@,
                    k as nat,
                )),
                kept@.map_values(|k: LayerLink| k.layer_indices@) == surviving_links(
                    s0,
                    indices@,
                    l as nat,
                ),
            decreases nl - l,
        {
            assert(s0.links[l as int] == self.links@[l as int].layer_indices@);
            if !taken[l] {
                let ghost prev = kept@;
                kept.push(LayerLink { layer_indices: self.links[l].layer_indices.clone() });
                assert(kept@.map_values(|k: LayerLink| k.layer_indices@) =~= prev.map_values(
                    |k: LayerLink| k.layer_indices@,
                ).push(s0.links[l as int]));
            }
            l = l + 1;
        }
        let link_idx = kept.len();
        let mut members: Vec<usize> = Vec::new();
        let mut j: usize = 0;
        while j < indices.len()
            invariant
                j <= indices@.len(),
                members@ == indices@.subrange(0, j as int),
            decreases indices@.len() - j,
        {
            members.push(indices[j]);
            j = j + 1;
            assert(members@ =~= indices@.subrange(0, j as int));
        }
        assert(members@ =~= indices@);
        kept.push(LayerLink { layer_indices: members });
        self.links = kept;
        assert(self@.links =~= surviving_links(s0, indices@, nl as nat).push(indices@));
        let mut j: usize = 0;
        while j < indices.len()
            invariant
                j <= indices@.len(),
                n_layers == s0.layers.len(),
                self@.layers.len() == s0.layers.len(),
                all_below(indices@, s0.layers.len()),
                forall|k: int| 0 <= k < self@.layers.len() ==> {
                    &&& same_but_link(#[trigger] self@.layers[k], s0.layers[k])
                    &&& self@.layers[k].link == (if indices@.subrange(0, j as int).contains(
                        k as usize,
                    ) {
                        Some(link_idx)
                    } else {
                        relinked(s0, indices@, s0.layers[k].link)
                    })
                },
                self@.active == s0.active,
                self@.groups == s0.groups,
                self@.links == surviving_links(s0, indices@, nl as nat).push(indices@),
                link_idx == surviving_links(s0, indices@, nl as nat).len(),
            decreases indices@.len() - j,
        {
            let idx = indices[j];
            let ghost prev = self@.layers;
            assert(prev[idx as int] == self.layers@[idx as int]@);
            self.layers[idx].link = Some(link_idx);
            assert(self@.layers[idx as int] == self.layers@[idx as int]@);
            proof {
                assert forall|k: int| 0 <= k < self@.layers.len() implies {
                    &&& same_but_link(#[trigger] self@.layers[k], s0.layers[k])
                    &&& self@.layers[k].link == (if indices@.subrange(0, j + 1).contains(
                        k as usize,
                    ) {
                        Some(link_idx)
                    } else {
                        relinked(s0, indices@, s0.layers[k].link)
                    })
                } by {
                    let sub0 = indices@.subrange(0, j as int);
                    let sub1 = indices@.subrange(0, j + 1);
                    assert(sub1 =~= sub0.push(idx));
                    if k != idx {
                        assert(self@.layers[k] == prev[k]);
                        assert(sub1.contains(k as usize) == sub0.contains(k as usize));
                    } else {
                        assert(sub1[j as int] == idx);
                        assert(sub1.contains(k as usize));
                    }
                }
            }
            j = j + 1;
        }
        assert(indices@.subrange(0, indices@.len() as int) =~= indices@);
        assert forall|k: int| 0 <= k < self@.layers.len() implies (#[trigger] self@.layers[k]).wf() by {
            assert(same_but_link(self@.layers[k], s0.layers[k]));
        }
        Some(link_idx)
    }
}


impl LayerStack {
    /// Give the layer at `layer_idx` a blank, enabled mask of its own size;
    /// refused when the layer is missing or already masked.
    pub fn create_mask(&mut self, layer_idx: usize) -> (r: bool)
        requires
            old(self)@.wf(),
        ensures
            final(self)@.wf(),
            r == (layer_idx < old(self)@.layers.len() && old(self)@.layers[
                layer_idx as int
            ].mask.is_none()),
            !r ==> final(self)@ == old(self)@,
            r ==> {
                let l = old(self)@.layers[layer_idx as int];
                let n = final(self)@.layers[layer_idx as int];
                &&& final(self)@.layers.len() == old(self)@.layers.len()
                &&& forall|i: int| 0 <= i < final(self)@.layers.len() && i != layer_idx ==> #[trigger] final(self)@.layers[i] == old(self)@.layers[i]
                &&& same_but_mask(n, l)
                &&& n.mask matches Some(m) && m.enabled && m.grid.is_blank(l.grid.width, l.grid.height)
            },
            final(self)@.active == old(self)@.active,
            final(self)@.groups == old(self)@.groups,
            final(self)@.links == old(self)@.links,
    {
        if layer_idx >= self.layers.len() {
            return false;
        }
        assert(old(self)@.layers[layer_idx as int] == self.layers@[layer_idx as int]@);
        if self.layers[layer_idx].mask.is_some() {
            return false;
        }
        let w = self.layers[layer_idx].buffer.width();
        let h = self.layers[layer_idx].buffer.height();
        self.layers[layer_idx].mask = Some(LayerMask::new(w, h));
        assert(self@.layers[layer_idx as int] == self.layers@[layer_idx as int]@);
        assert forall|i: int| 0 <= i < self@.layers.len() implies (#[trigger] self@.layers[i]).wf() by {
            if i != layer_idx {
                assert(self@.layers[i] == old(self)@.layers[i]);
            }
        }
        true
    }

    /// Drop the mask of the layer at `layer_idx`; refused when the layer is
    /// missing or has no mask.
    pub fn remove_mask(&mut self, layer_idx: usize) -> (r: bool)
        requires
            old(self)@.wf(),
        ensures
            final(self)@.wf(),
            r == (layer_idx < old(self)@.layers.len() && old(self)@.layers[
                layer_idx as int
            ].mask.is_some()),
            !r ==> final(self)@ == old(self)@,
            r ==> final(self)@.layers == old(self)@.layers.update(
                layer_idx as int,
                LayerModel { mask: None, ..old(self)@.layers[layer_idx as int] },
            ),
            final(self)@.active == old(self)@.active,
            final(self)@.groups == old(self)@.groups,
            final(self)@.links == old(self)@.links,
    {
        if layer_idx >= self.layers.len() {
            return false;
        }
        assert(old(self)@.layers[layer_idx as int] == self.layers@[layer_idx as int]@);
        if self.layers[layer_idx].mask.is_none() {
            return false;
        }
        self.layers[layer_idx].mask = None;
        assert(self@.layers =~= old(self)@.layers.update(
            layer_idx as int,
            LayerModel { mask: None, ..old(self)@.layers[layer_idx as int] },
        ));
        true
    }

    /// Add a mask to the layer at `layer_idx` when it has none, remove it
    /// when it has one; refused only for a missing layer.
    pub fn toggle_mask(&mut self, layer_idx: usize) -> (r: bool)
        requires
            old(self)@.wf(),
        ensures
            final(self)@.wf(),
            r == (layer_idx < old(self)@.layers.len()),
            !r ==> final(self)@ == old(self)@,
            r ==> {
                let l = old(self)@.layers[layer_idx as int];
                let n = final(self)@.layers[layer_idx as int];
                &&& final(self)@.layers.len() == old(self)@.layers.len()
                &&& forall|i: int| 0 <= i < final(self)@.layers.len() && i != layer_idx ==> #[trigger] final(self)@.layers[i] == old(self)@.layers[i]
                &&& same_but_mask(n, l)
                &&& l.mask.is_some() ==> n.mask.is_none()
                &&& l.mask.is_none() ==> (n.mask matches Some(m) && m.enabled && m.grid.is_blank(l.grid.width, l.grid.height))
            },
            final(self)@.active == old(self)@.active,
            final(self)@.groups == old(self)@.groups,
            final(self)@.links == old(self)@.links,
    {
        if layer_idx >= self.layers.len() {
            return false;
        }
        assert(old(self)@.layers[layer_idx as int] == self.layers@[layer_idx as int]@);
        if self.layers[layer_idx].mask.is_some() {
            self.layers[layer_idx].mask = None;
        } else {
            let w = self.layers[layer_idx].buffer.width();
            let h = self.layers[layer_idx].buffer.height();
            self.layers[layer_idx].mask = Some(LayerMask::new(w, h));
        }
        assert(self@.layers[layer_idx as int] == self.layers@[layer_idx as int]@);
        assert forall|i: int| 0 <= i < self@.layers.len() implies (#[trigger] self@.layers[i]).wf() by {
            if i != layer_idx {
                assert(self@.layers[i] == old(self)@.layers[i]);
            }
        }
        true
    }

    /// Switch the mask of the layer at `layer_idx` on or off; refused when
    /// the layer is missing or has no mask.
    pub fn toggle_mask_enabled(&mut self, layer_idx: usize) -> (r: bool)
        requires
            old(self)@.wf(),
        ensures
            final(self)@.wf(),
            r == (layer_idx < old(self)@.layers.len() && old(self)@.layers[
                layer_idx as int
            ].mask.is_some()),
            !r ==> final(self)@ == old(self)@,
            r ==> {
                let l = old(self)@.layers[layer_idx as int];
                let m = l.mask.unwrap();
                final(self)@.layers == old(self)@.layers.update(
                    layer_idx as int,
                    LayerModel { mask: Some(MaskModel { grid: m.grid, enabled: !m.enabled }), ..l },
                )
            },
            final(self)@.active == old(self)@.active,
            final(self)@.groups == old(self)@.groups,
            final(self)@.links == old(self)@.links,
    {
        if layer_idx >= self.layers.len() {
            return false;
        }
        assert(old(self)@.layers[layer_idx as int] == self.layers@[layer_idx as int]@);
        match self.layers[layer_idx].mask.take() {
            Some(mut m) => {
                m.enabled = !m.enabled;
                self.layers[layer_idx].mask = Some(m);
                assert(self@.layers =~= old(self)@.layers.update(
                    layer_idx as int,
                    LayerModel {
                        mask: Some(
                            MaskModel {
                                grid: old(self)@.layers[layer_idx as int].mask.unwrap().grid,
                                enabled: !old(self)@.layers[layer_idx as int].mask.unwrap().enabled,
                            },
                        ),
                        ..old(self)@.layers[layer_idx as int]
                    },
                ));
                assert forall|i: int| 0 <= i < self@.layers.len() implies (#[trigger] self@.layers[i]).wf() by {
                    if i != layer_idx {
                        assert(self@.layers[i] == old(self)@.layers[i]);
                    }
                }
                true
            },
            None => {
                assert(self@.layers[layer_idx as int] == self.layers@[layer_idx as int]@);
                assert(self@.layers =~= old(self)@.layers);
                false
            },
        }
    }

    /// Paint `cell` into the mask of the layer at `layer_idx`; nothing
    /// happens for a missing layer, an unmasked layer or a position outside
    /// the mask.
    pub fn set_mask_pixel(&mut self, layer_idx: usize, x: usize, y: usize, cell: CanvasCell)
        requires
            old(self)@.wf(),
        ensures
            final(self)@.wf(),
            final(self)@.layers.len() == old(self)@.layers.len(),
            forall|i: int| 0 <= i < final(self)@.layers.len() && i != layer_idx ==> #[trigger] final(self)@.layers[i] == old(self)@.layers[i],
            layer_idx < old(self)@.layers.len() ==> {
                let l = old(self)@.layers[layer_idx as int];
                let n = final(self)@.layers[layer_idx as int];
                &&& same_but_mask(n, l)
                &&& match l.mask {
                    Some(m) => n.mask matches Some(nm) && nm.enabled == m.enabled && nm.grid.is_set(m.grid, x as int, y as int, cell),
                    None => n.mask.is_none(),
                }
            },
            final(self)@.active == old(self)@.active,
            final(self)@.groups == old(self)@.groups,
            final(self)@.links == old(self)@.links,
    {
        if layer_idx >= self.layers.len() {
            return;
        }
        assert(old(self)@.layers[layer_idx as int] == self.layers@[layer_idx as int]@);
        match self.layers[layer_idx].mask.take() {
            Some(mut m) => {
                if x < m.buffer.width() && y < m.buffer.height() {
                    m.buffer.set(x, y, cell);
                }
                self.layers[layer_idx].mask = Some(m);
            },
            None => {},
        }
        assert(self@.layers[layer_idx as int] == self.layers@[layer_idx as int]@);
        assert forall|i: int| 0 <= i < self@.layers.len() implies (#[trigger] self@.layers[i]).wf() by {
            if i != layer_idx {
                assert(self@.layers[i] == old(self)@.layers[i]);
            }
        }
    }

    /// The mask cell at (x, y) of the layer at `layer_idx`, if the layer,
    /// its mask and the position all exist.
    pub fn get_mask_pixel(&self, layer_idx: usize, x: usize, y: usize) -> (r: Option<CanvasCell>)
        requires
            self@.wf(),
        ensures
            r == (if layer_idx < self@.layers.len() && self@.layers[layer_idx as int].mask is Some
                && self@.layers[layer_idx as int].mask.unwrap().grid.in_bounds(x as int, y as int) {
                Some(self@.layers[layer_idx as int].mask.unwrap().grid.cell(x as int, y as int))
            } else {
                None
            }),
    {
        if layer_idx >= self.layers.len() {
            return None;
        }
        assert(self@.layers[layer_idx as int] == self.layers@[layer_idx as int]@);
        match &self.layers[layer_idx].mask {
            Some(m) => match m.buffer.get(x, y) {
                Some(c) => Some(*c),
                None => None,
            },
            None => None,
        }
    }

    /// Flip the visibility of the layer at `index`; the other layers of its
    /// link take the same new visibility.
    pub fn toggle_visibility(&mut self, index: usize)
        requires
            old(self)@.wf(),
        ensures
            final(self)@.wf(),
            index >= old(self)@.layers.len() ==> final(self)@ == old(self)@,
            index < old(self)@.layers.len() ==> {
                &&& final(self)@.layers.len() == old(self)@.layers.len()
                &&& forall|j: int| 0 <= j < final(self)@.layers.len() ==> #[trigger] final(self)@.layers[j]
                    == visibility_toggled(old(self)@, index as int, j)
            },
            final(self)@.active == old(self)@.active,
            final(self)@.groups == old(self)@.groups,
            final(self)@.links == old(self)@.links,
    {
        if index >= self.layers.len() {
            return;
        }
        assert(old(self)@.layers[index as int] == self.layers@[index as int]@);
        let v = !self.layers[index].visible;
        let link = self.layers[index].link;
        let mut j: usize = 0;
        while j < self.layers.len()
            invariant
                j <= self@.layers.len(),
                index < old(self)@.layers.len(),
                self@.layers.len() == old(self)@.layers.len(),
                v == !old(self)@.layers[index as int].visible,
                link == old(self)@.layers[index as int].link,
                forall|k: int| 0 <= k < self@.layers.len() ==> #[trigger] self@.layers[k] == (if k < j {
                    visibility_toggled(old(self)@, index as int, k)
                } else {
                    old(self)@.layers[k]
                }),
                self@.active == old(self)@.active,
                self@.groups == old(self)@.groups,
                self@.links == old(self)@.links,
            decreases self@.layers.len() - j,
        {
            let ghost prev = self@.layers;
            assert(prev[j as int] == self.layers@[j as int]@);
            if j == index || (link.is_some() && self.layers[j].link == link) {
                self.layers[j].visible = v;
            }
            assert forall|k: int| 0 <= k < self@.layers.len() && k != j implies #[trigger] self@.layers[k]
                == prev[k] by {}
            assert(self@.layers[j as int] == self.layers@[j as int]@);
            j = j + 1;
        }
        assert forall|k: int| 0 <= k < self@.layers.len() implies (#[trigger] self@.layers[k]).wf() by {
            assert(self@.layers[k] == visibility_toggled(old(self)@, index as int, k));
        }
    }

    /// Flip the lock of the layer at `index`; the other layers of its link
    /// take the same new lock state.
    pub fn toggle_lock(&mut self, index: usize)
        requires
            old(self)@.wf(),
        ensures
            final(self)@.wf(),
            index >= old(self)@.layers.len() ==> final(self)@ == old(self)@,
            index < old(self)@.layers.len() ==> {
                &&& final(self)@.layers.len() == old(self)@.layers.len()
                &&& forall|j: int| 0 <= j < final(self)@.layers.len() ==> #[trigger] final(self)@.layers[j]
                    == lock_toggled(old(self)@, index as int, j)
            },
            final(self)@.active == old(self)@.active,
            final(self)@.groups == old(self)@.groups,
            final(self)@.links == old(self)@.links,
    {
        if index >= self.layers.len() {
            return;
        }
        assert(old(self)@.layers[index as int] == self.layers@[index as int]@);
        let v = !self.layers[index].locked;
        let link = self.layers[index].link;
        let mut j: usize = 0;
        while j < self.layers.len()
            invariant
                j <= self@.layers.len(),
                index < old(self)@.layers.len(),
                self@.layers.len() == old(self)@.layers.len(),
                v == !old(self)@.layers[index as int].locked,
                link == old(self)@.layers[index as int].link,
                forall|k: int| 0 <= k < self@.layers.len() ==> #[trigger] self@.layers[k] == (if k < j {
                    lock_toggled(old(self)@, index as int, k)
                } else {
                    old(self)@.layers[k]
                }),
                self@.active == old(self)@.active,
                self@.groups == old(self)@.groups,
                self@.links == old(self)@.links,
            decreases self@.layers.len() - j,
        {
            let ghost prev = self@.layers;
            assert(prev[j as int] == self.layers@[j as int]@);
            if j == index || (link.is_some() && self.layers[j].link == link) {
                self.layers[j].locked = v;
            }
            assert forall|k: int| 0 <= k < self@.layers.len() && k != j implies #[trigger] self@.layers[k]
                == prev[k] by {}
            assert(self@.layers[j as int] == self.layers@[j as int]@);
            j = j + 1;
        }
        assert forall|k: int| 0 <= k < self@.layers.len() implies (#[trigger] self@.layers[k]).wf() by {
            assert(self@.layers[k] == lock_toggled(old(self)@, index as int, k));
        }
    }

    /// Flip whether the layer at `index` receives lighting.
    pub fn toggle_accepts_lighting(&mut self, index: usize)
        requires
            old(self)@.wf(),
        ensures
            final(self)@.wf(),
            index >= old(self)@.layers.len() ==> final(self)@ == old(self)@,
            index < old(self)@.layers.len() ==> final(self)@.layers == old(self)@.layers.update(
                index as int,
                LayerModel {
                    accepts_lighting: !old(self)@.layers[index as int].accepts_lighting,
                    ..old(self)@.layers[index as int]
                },
            ),
            final(self)@.active == old(self)@.active,
            final(self)@.groups == old(self)@.groups,
            final(self)@.links == old(self)@.links,
    {
        if index < self.layers.len() {
            let a = self.layers[index].accepts_lighting;
            self.layers[index].accepts_lighting = !a;
            assert(self@.layers =~= old(self)@.layers.update(
                index as int,
                LayerModel {
                    accepts_lighting: !old(self)@.layers[index as int].accepts_lighting,
                    ..old(self)@.layers[index as int]
                },
            ));
            assert forall|k: int| 0 <= k < self@.layers.len() implies (#[trigger] self@.layers[k]).wf() by {
                if k != index {
                    assert(self@.layers[k] == old(self)@.layers[k]);
                }
            }
        }
    }

    /// Flip whether the layer at `index` casts shadows.
    pub fn toggle_casts_shadow(&mut self, index: usize)
        requires
            old(self)@.wf(),
        ensures
            final(self)@.wf(),
            index >= old(self)@.layers.len() ==> final(self)@ == old(self)@,
            index < old(self)@.layers.len() ==> final(self)@.layers == old(self)@.layers.update(
                index as int,
                LayerModel {
                    casts_shadow: !old(self)@.layers[index as int].casts_shadow,
                    ..old(self)@.layers[index as int]
                },
            ),
            final(self)@.active == old(self)@.active,
            final(self)@.groups == old(self)@.groups,
            final(self)@.links == old(self)@.links,
    {
        if index < self.layers.len() {
            let a = self.layers[index].casts_shadow;
            self.layers[index].casts_shadow = !a;
            assert(self@.layers =~= old(self)@.layers.update(
                index as int,
                LayerModel {
                    casts_shadow: !old(self)@.layers[index as int].casts_shadow,
                    ..old(self)@.layers[index as int]
                },
            ));
            assert forall|k: int| 0 <= k < self@.layers.len() implies (#[trigger] self@.layers[k]).wf() by {
                if k != index {
                    assert(self@.layers[k] == old(self)@.layers[k]);
                }
            }
        }
    }

    /// Set the opacity of the layer at `index`.
    pub fn set_opacity(&mut self, index: usize, opacity: u8)
        requires
            old(self)@.wf(),
        ensures
            final(self)@.wf(),
            index >= old(self)@.layers.len() ==> final(self)@ == old(self)@,
            index < old(self)@.layers.len() ==> final(self)@.layers == old(self)@.layers.update(
                index as int,
                LayerModel { opacity: opacity, ..old(self)@.layers[index as int] },
            ),
            final(self)@.active == old(self)@.active,
            final(self)@.groups == old(self)@.groups,
            final(self)@.links == old(self)@.links,
    {
        if index < self.layers.len() {
            self.layers[index].opacity = opacity;
            assert(self@.layers =~= old(self)@.layers.update(
                index as int,
                LayerModel { opacity: opacity, ..old(self)@.layers[index as int] },
            ));
            assert forall|k: int| 0 <= k < self@.layers.len() implies (#[trigger] self@.layers[k]).wf() by {
                if k != index {
                    assert(self@.layers[k] == old(self)@.layers[k]);
                }
            }
        }
    }

    /// Set the blend mode of the layer at `index`.
    pub fn set_blend_mode(&mut self, index: usize, mode: BlendMode)
        requires
            old(self)@.wf(),
        ensures
            final(self)@.wf(),
            index >= old(self)@.layers.len() ==> final(self)@ == old(self)@,
            index < old(self)@.layers.len() ==> final(self)@.layers == old(self)@.layers.update(
                index as int,
                LayerModel { blend_mode: mode, ..old(self)@.layers[index as int] },
            ),
            final(self)@.active == old(self)@.active,
            final(self)@.groups == old(self)@.groups,
            final(self)@.links == old(self)@.links,
    {
        if index < self.layers.len() {
            self.layers[index].blend_mode = mode;
            assert(self@.layers =~= old(self)@.layers.update(
                index as int,
                LayerModel { blend_mode: mode, ..old(self)@.layers[index as int] },
            ));
            assert forall|k: int| 0 <= k < self@.layers.len() implies (#[trigger] self@.layers[k]).wf() by {
                if k != index {
                    assert(self@.layers[k] == old(self)@.layers[k]);
                }
            }
        }
    }
}


/// Whether layer `l` paints its cell at (x, y) in the composite: it is
/// visible, covers the position, its cell there is not empty, and no enabled
/// mask holds a space there.
pub open spec fn paints(l: LayerModel, x: int, y: int) -> bool {
    &&& l.visible
    &&& l.grid.in_bounds(x, y)
    &&& !l.grid.cell(x, y).is_empty_spec()
    &&& !(l.mask matches Some(m) && m.enabled && m.grid.in_bounds(x, y) && m.grid.cell(x, y).ch
        == ' ')
}

/// The composite cell `acc` after layer `l` is laid over it at (x, y).
pub open spec fn apply_layer(acc: CanvasCell, l: LayerModel, x: int, y: int) -> CanvasCell {
    if !paints(l, x, y) {
        acc
    } else if l.opacity == 255 && l.blend_mode == BlendMode::Normal {
        l.grid.cell(x, y)
    } else if l.opacity > 0 {
        let top = l.grid.cell(x, y);
        CanvasCell {
            ch: top.ch,
            fg: spec_blend_colors(
                spec_blend_mode_color(top.fg, acc.fg, l.blend_mode),
                acc.fg,
                l.opacity,
            ),
            bg: spec_blend_colors(
                spec_blend_mode_color(top.bg, acc.bg, l.blend_mode),
                acc.bg,
                l.opacity,
            ),
            height: None,
        }
    } else {
        acc
    }
}

/// The composite at (x, y) of the first `n` layers, laid bottom to top over
/// a blank cell.
pub open spec fn composite_cell(layers: Seq<LayerModel>, n: nat, x: int, y: int) -> CanvasCell
    decreases n,
{
    if n == 0 {
        blank_cell()
    } else {
        apply_layer(composite_cell(layers, (n - 1) as nat, x, y), layers[n - 1], x, y)
    }
}

/// The composite of the stack: a grid the size of the bottom layer whose
/// cells are the composite cells; a 1x1 blank grid for an empty stack.
pub open spec fn is_composite(r: GridModel, layers: Seq<LayerModel>) -> bool {
    if layers.len() == 0 {
        r.is_blank(1, 1)
    } else {
        &&& r.wf()
        &&& r.width == layers[0].grid.width
        &&& r.height == layers[0].grid.height
        &&& forall|x: int, y: int| #![trigger r.cell(x, y)]
            r.in_bounds(x, y) ==> r.cell(x, y) == composite_cell(layers, layers.len(), x, y)
    }
}

/// The name of frame `i` of a batch imported under `base`.
pub open spec fn frame_name(base: Seq<char>, i: nat) -> Seq<char> {
    base + " frame "@ + decimal(i)
}

fn frame_layer_name(base: &str, i: usize) -> (s: String)
    ensures
        s@ == frame_name(base@, i as nat),
{
    let mut s = String::new();
    push_str(&mut s, base);
    push_str(&mut s, " frame ");
    push_decimal(&mut s, i);
    proof {
        reveal_strlit(" frame ");
        assert(s@ =~= frame_name(base@, i as nat));
    }
    s
}

impl LayerStack {
    /// Flatten the visible layers, bottom to top, into one buffer the size
    /// of the bottom layer.
    pub fn composite(&self) -> (r: CanvasBuffer)
        requires
            self@.wf(),
        ensures
            is_composite(r@, self@.layers),
    {
        if self.layers.len() == 0 {
            return CanvasBuffer::new(1, 1);
        }
        assert(self@.layers[0] == self.layers@[0]@);
        let w = self.layers[0].buffer.width();
        let h = self.layers[0].buffer.height();
        let mut result = CanvasBuffer::new(w, h);
        let ghost layers = self@.layers;
        let mut k: usize = 0;
        while k < self.layers.len()
            invariant
                k <= layers.len(),
                layers == self@.layers,
                self@.wf(),
                result@.wf(),
                result@.width == w,
                result@.height == h,
                forall|i: int, j: int| #![trigger result@.cell(i, j)]
                    result@.in_bounds(i, j) ==> result@.cell(i, j) == composite_cell(
                        layers,
                        k as nat,
                        i,
                        j,
                    ),
            decreases layers.len() - k,
        {
            let layer = &self.layers[k];
            assert(layers[k as int] == layer@);
            assert(layer@.wf());
            let opacity = layer.opacity;
            let blend_mode = layer.blend_mode;
            if layer.visible {
                let lh = if h < layer.buffer.height() {
                    h
                } else {
                    layer.buffer.height()
                };
                let lw = if w < layer.buffer.width() {
                    w
                } else {
                    layer.buffer.width()
                };
                let mut y: usize = 0;
                while y < lh
                    invariant
                        k < layers.len(),
                        layers[k as int] == layer@,
                        layer@.wf(),
                        layer.visible,
                        opacity == layer.opacity,
                        blend_mode == layer.blend_mode,
                        lh == (if h < layer@.grid.height { h as nat } else { layer@.grid.height }),
                        lw == (if w < layer@.grid.width { w as nat } else { layer@.grid.width }),
                        y <= lh,
                        result@.wf(),
                        result@.width == w,
                        result@.height == h,
                        forall|i: int, j: int| #![trigger result@.cell(i, j)]
                            result@.in_bounds(i, j) ==> result@.cell(i, j) == (if j < y {
                                composite_cell(layers, (k + 1) as nat, i, j)
                            } else {
                                composite_cell(layers, k as nat, i, j)
                            }),
                    decreases lh - y,
                {
                    let mut x: usize = 0;
                    while x < lw
                        invariant
                            k < layers.len(),
                            layers[k as int] == layer@,
                            layer@.wf(),
                            layer.visible,
                            opacity == layer.opacity,
                            blend_mode == layer.blend_mode,
                            lh == (if h < layer@.grid.height { h as nat } else { layer@.grid.height }),
                            lw == (if w < layer@.grid.width { w as nat } else { layer@.grid.width }),
                            y < lh,
                            x <= lw,
                            result@.wf(),
                            result@.width == w,
                            result@.height == h,
                            forall|i: int, j: int| #![trigger result@.cell(i, j)]
                                result@.in_bounds(i, j) ==> result@.cell(i, j) == (if j < y || (j
                                    == y && i < x) {
                                    composite_cell(layers, (k + 1) as nat, i, j)
                                } else {
                                    composite_cell(layers, k as nat, i, j)
                                }),
                        decreases lw - x,
                    {
                        let ghost acc = composite_cell(layers, k as nat, x as int, y as int);
                        let top = *layer.buffer.get(x, y).unwrap();
                        let mut skip = top.ch == ' ' && top.fg.is_none() && top.bg.is_none();
                        if !skip {
                            match &layer.mask {
                                Some(mask) => {
                                    if mask.enabled {
                                        match mask.buffer.get(x, y) {
                                            Some(mc) => {
                                                if mc.ch == ' ' {
                                                    skip = true;
                                                }
                                            },
                                            None => {},
                                        }
                                    }
                                },
                                None => {},
                            }
                        }
                        assert(skip == !paints(layer@, x as int, y as int));
                        if !skip {
                            if opacity == 255 && blend_mode == BlendMode::Normal {
                                result.set(x, y, top);
                            } else if opacity > 0 {
                                let bottom = *result.get(x, y).unwrap();
                                assert(bottom == acc);
                                let blended_fg = blend_mode_color(top.fg, bottom.fg, blend_mode);
                                let blended_bg = blend_mode_color(top.bg, bottom.bg, blend_mode);
                                let final_fg = blend_colors(blended_fg, bottom.fg, opacity);
                                let final_bg = blend_colors(blended_bg, bottom.bg, opacity);
                                result.set(
                                    x,
                                    y,
                                    CanvasCell { ch: top.ch, fg: final_fg, bg: final_bg, height: None },
                                );
                            }
                        }
                        x = x + 1;
                    }
                    proof {
                        assert forall|i: int, j: int| #![trigger result@.cell(i, j)]
                            result@.in_bounds(i, j) implies result@.cell(i, j) == (if j < y + 1 {
                            composite_cell(layers, (k + 1) as nat, i, j)
                        } else {
                            composite_cell(layers, k as nat, i, j)
                        }) by {
                            if j == y && i >= x {
                                assert(!layer@.grid.in_bounds(i, j));
                            }
                        }
                    }
                    y = y + 1;
                }
                proof {
                    assert forall|i: int, j: int| #![trigger result@.cell(i, j)]
                        result@.in_bounds(i, j) implies result@.cell(i, j) == composite_cell(
                        layers,
                        (k + 1) as nat,
                        i,
                        j,
                    ) by {
                        if j >= y {
                            assert(!layer@.grid.in_bounds(i, j));
                        }
                    }
                }
            }
            k = k + 1;
        }
        result
    }

    /// Append one layer per buffer, named "<base_name> frame <i>", each
    /// visible and otherwise fresh; the last becomes active. Returns the new
    /// layers' indices.
    pub fn add_frozen_frames(&mut self, frames: Vec<CanvasBuffer>, base_name: &str) -> (r: Vec<
        usize,
    >)
        requires
            old(self)@.wf(),
            forall|i: int| 0 <= i < frames@.len() ==> (#[trigger] frames@[i])@.wf(),
            old(self)@.layers.len() + frames@.len() <= usize::MAX,
        ensures
            final(self)@.wf(),
            final(self)@.layers.len() == old(self)@.layers.len() + frames@.len(),
            final(self)@.layers.subrange(0, old(self)@.layers.len() as int) == old(self)@.layers,
            forall|i: int| 0 <= i < frames@.len() ==> is_frame_layer(
                #[trigger] final(self)@.layers[old(self)@.layers.len() + i],
                frames@[i]@,
                frame_name(base_name@, i as nat),
            ),
            r@.len() == frames@.len(),
            forall|i: int| 0 <= i < frames@.len() ==> #[trigger] r@[i] == old(self)@.layers.len() + i,
            final(self)@.active == (if frames@.len() == 0 {
                old(self)@.active
            } else {
                (old(self)@.layers.len() + frames@.len() - 1) as nat
            }),
            final(self)@.groups == old(self)@.groups,
            final(self)@.links == old(self)@.links,
    {
        let n0 = self.layers.len();
        let ghost all = frames@;
        let mut frames = frames;
        let mut indices: Vec<usize> = Vec::new();
        let mut i: usize = 0;
        while frames.len() > 0
            invariant
                i <= all.len(),
                frames@ == all.subrange(i as int, all.len() as int),
                forall|k: int| 0 <= k < all.len() ==> (#[trigger] all[k])@.wf(),
                n0 == old(self)@.layers.len(),
                n0 + all.len() <= usize::MAX,
                self@.layers.len() == n0 + i,
                self@.layers.subrange(0, n0 as int) == old(self)@.layers,
                old(self)@.wf(),
                forall|k: int| 0 <= k < i ==> is_frame_layer(
                    #[trigger] self@.layers[n0 + k],
                    all[k]@,
                    frame_name(base_name@, k as nat),
                ),
                indices@.len() == i,
                forall|k: int| 0 <= k < i ==> #[trigger] indices@[k] == n0 + k,
                self@.active == (if i == 0 {
                    old(self)@.active
                } else {
                    (n0 + i - 1) as nat
                }),
                self@.groups == old(self)@.groups,
                self@.links == old(self)@.links,
            decreases frames@.len(),
        {
            assert(frames@[0] == all[i as int]);
            let buffer = frames.remove(0);
            let idx = self.layers.len();
            let name = frame_layer_name(base_name, i);
            let mut layer = Layer::new(buffer.width(), buffer.height(), name);
            layer.buffer = buffer;
            layer.visible = true;
            let ghost prev = self@.layers;
            self.layers.push(layer);
            self.active = idx;
            indices.push(idx);
            proof {
                assert(self@.layers =~= prev.push(layer@));
                assert(self@.layers.subrange(0, n0 as int) =~= prev.subrange(0, n0 as int));
                assert forall|k: int| 0 <= k < i + 1 implies is_frame_layer(
                    #[trigger] self@.layers[n0 + k],
                    all[k]@,
                    frame_name(base_name@, k as nat),
                ) by {
                    if k < i {
                        assert(self@.layers[n0 + k] == prev[n0 + k]);
                    }
                }
                assert(frames@ =~= all.subrange(i + 1, all.len() as int));
            }
            i = i + 1;
        }
        assert(i == all.len());
        assert forall|k: int| 0 <= k < self@.layers.len() implies (#[trigger] self@.layers[k]).wf() by {
            if k < n0 {
                assert(self@.layers[k] == self@.layers.subrange(0, n0 as int)[k]);
            } else {
                assert(is_frame_layer(self@.layers[n0 + (k - n0)], all[k - n0]@, frame_name(base_name@, (k - n0) as nat)));
            }
        }
        indices
    }
}

/// A layer made from an imported frame: the frame's grid under the given
/// name, visible and otherwise fresh.
pub open spec fn is_frame_layer(l: LayerModel, grid: GridModel, name: Seq<char>) -> bool {
    &&& l.grid == grid
    &&& l.name == name
    &&& l.visible
    &&& !l.locked
    &&& l.opacity == 255
    &&& l.blend_mode == BlendMode::Normal
    &&& l.mask.is_none()
    &&& l.group.is_none()
    &&& l.link.is_none()
    &&& l.accepts_lighting
    &&& l.casts_shadow
}


/// `s` with its first `max_len` characters kept when it is longer than
/// that, the last kept one replaced by an ellipsis.
pub open spec fn truncated(s: Seq<char>, max_len: nat) -> Seq<char> {
    if s.len() <= max_len {
        s
    } else {
        s.subrange(0, if max_len == 0 { 0 } else { max_len - 1 }).push('\u{2026}')
    }
}

/// `s` shortened to at most `max_len` characters (at least one when it had
/// to be cut), ending in an ellipsis when cut.
pub fn truncate_str(s: &str, max_len: usize) -> (r: String)
    ensures
        r@ == truncated(s@, max_len as nat),
{
    let cs = crate::text::chars_of(s);
    if cs.len() <= max_len {
        return crate::text::string_from_chars(&cs);
    }
    let keep = if max_len == 0 {
        0
    } else {
        max_len - 1
    };
    let mut r = String::new();
    let mut i: usize = 0;
    while i < keep
        invariant
            keep < cs@.len(),
            i <= keep,
            r@ == cs@.subrange(0, i as int),
        decreases keep - i,
    {
        push_char(&mut r, cs[i]);
        i = i + 1;
        assert(r@ =~= cs@.subrange(0, i as int));
    }
    push_char(&mut r, '\u{2026}');
    r
}

/// The blend mode named by `lower` (a lowercased name); anything
/// unrecognised means Normal.
pub open spec fn blend_mode_named(lower: Seq<char>) -> BlendMode {
    if lower == "multiply"@ {
        BlendMode::Multiply
    } else if lower == "overlay"@ {
        BlendMode::Overlay
    } else if lower == "screen"@ {
        BlendMode::Screen
    } else if lower == "add"@ {
        BlendMode::Add
    } else if lower == "subtract"@ {
        BlendMode::Subtract
    } else {
        BlendMode::Normal
    }
}

impl BlendMode {
    /// The mode named by an already lowercased name.
    pub fn from_lowercase_name(lower: &str) -> (m: BlendMode)
        ensures
            m == blend_mode_named(lower@),
    {
        if crate::text::str_eq(lower, "multiply") {
            BlendMode::Multiply
        } else if crate::text::str_eq(lower, "overlay") {
            BlendMode::Overlay
        } else if crate::text::str_eq(lower, "screen") {
            BlendMode::Screen
        } else if crate::text::str_eq(lower, "add") {
            BlendMode::Add
        } else if crate::text::str_eq(lower, "subtract") {
            BlendMode::Subtract
        } else {
            BlendMode::Normal
        }
    }

    /// The mode named by `s`, compared without regard to case; anything
    /// unrecognised means Normal.
    pub fn parse_name(s: &str) -> (m: BlendMode)
        ensures
            m == blend_mode_named(crate::text::lowercase(s@)),
    {
        let lower = crate::text::to_lowercase(s);
        BlendMode::from_lowercase_name(lower.as_str())
    }
}

impl std::str::FromStr for BlendMode {
    type Err = ();

    fn from_str(s: &str) -> (r: Result<BlendMode, ()>)
        ensures
            r == Ok::<BlendMode, ()>(blend_mode_named(crate::text::lowercase(s@))),
    {
        Ok(BlendMode::parse_name(s))
    }
}

// Laws.

/// Moving a layer up and then moving it back down restores the layer order
/// and the active index.
pub proof fn law_move_down_undoes_move_up(layers: Seq<LayerModel>, active: nat, index: int)
    requires
        0 <= index,
        index + 1 < layers.len(),
    ensures
        swap_adjacent(swap_adjacent(layers, index), index) == layers,
        active_after_swap(active_after_swap(active, index as nat), index as nat) == active,
{
    assert(swap_adjacent(swap_adjacent(layers, index), index) =~= layers);
}

/// Moving a layer from `from` to `to` and then from `to` back to `from`
/// restores the layer order, and the active index when it named a layer.
pub proof fn law_reorder_round_trip(layers: Seq<LayerModel>, active: nat, from: int, to: int)
    requires
        0 <= from < layers.len(),
        0 <= to < layers.len(),
        from != to,
        active < layers.len(),
    ensures
        moved(moved(layers, from, to), to, from) == layers,
        active_after_reorder(
            active_after_reorder(active, from as nat, to as nat),
            to as nat,
            from as nat,
        ) == active,
{
    let m = moved(layers, from, to);
    assert(m[to] == layers[from]);
    assert(moved(m, to, from) =~= layers);
}

/// Deleting the layer that `duplicate` or `add` just appended restores the
/// layer list.
pub proof fn law_delete_undoes_append(layers: Seq<LayerModel>, appended: LayerModel)
    ensures
        layers.push(appended).remove(layers.len() as int) == layers,
{
    assert(layers.push(appended).remove(layers.len() as int) =~= layers);
}

/// After toggling the visibility of a layer, every layer of its link shows
/// the same visibility as it.
pub proof fn law_linked_visibility_in_sync(s: StackModel, index: int, j: int)
    requires
        0 <= index < s.layers.len(),
        0 <= j < s.layers.len(),
        s.layers[index].link.is_some(),
        s.layers[j].link == s.layers[index].link,
    ensures
        visibility_toggled(s, index, j).visible == visibility_toggled(s, index, index).visible,
        lock_toggled(s, index, j).locked == lock_toggled(s, index, index).locked,
{
}

/// Removing a group keeps every other membership: a layer that belonged to
/// another group still belongs to a group with the same name and state.
pub proof fn law_remove_group_keeps_other_groups(groups: Seq<GroupModel>, g: usize, member_of: usize)
    requires
        g < groups.len(),
        member_of < groups.len(),
        member_of != g,
    ensures
        shift_after_remove(Some(member_of), g) matches Some(k) && groups.remove(g as int)[k as int]
            == groups[member_of as int],
{
}

/// Every layer refers to an existing link.
pub open spec fn links_valid(s: StackModel) -> bool {
    forall|i: int| 0 <= i < s.layers.len() ==> ((#[trigger] s.layers[i]).link matches Some(l) ==> l
        < s.links.len())
}

proof fn lemma_surviving_count(s: StackModel, indices: Seq<usize>, n: nat)
    ensures
        surviving_links(s, indices, n).len() + taken_below(s, indices, n) == n,
    decreases n,
{
    if n > 0 {
        lemma_surviving_count(s, indices, (n - 1) as nat);
    }
}

proof fn lemma_taken_between(s: StackModel, indices: Seq<usize>, l: nat, m: nat)
    requires
        l < m,
        !link_taken(s, indices, l),
    ensures
        taken_below(s, indices, m) + l < taken_below(s, indices, l) + m,
    decreases m,
{
    if m > l + 1 {
        lemma_taken_between(s, indices, l, (m - 1) as nat);
    }
}

/// After linking `indices` in a stack whose links are all valid, the new
/// link holds exactly those layers: a layer is in it if and only if its
/// index was given.
pub proof fn law_link_members_exact(s: StackModel, indices: Seq<usize>, i: int)
    requires
        links_valid(s),
        s.links.len() <= usize::MAX,
        s.layers.len() <= usize::MAX,
        0 <= i < s.layers.len(),
        !indices.contains(i as usize),
    ensures
        relinked(s, indices, s.layers[i].link) != Some(
            surviving_links(s, indices, s.links.len()).len() as usize,
        ),
{
    lemma_surviving_count(s, indices, s.links.len());
    if let Some(l) = s.layers[i].link {
        assert(l < s.links.len());
        if !link_taken(s, indices, l as nat) {
            lemma_taken_between(s, indices, l as nat, s.links.len());
            lemma_taken_below_bound(s, indices, l as nat);
            assert(l - taken_below(s, indices, l as nat) < surviving_links(
                s,
                indices,
                s.links.len(),
            ).len());
        }
    }
}

/// A layer that does not paint a position can be taken out of the stack
/// without changing the composite there; in particular hidden layers and
/// empty cells never matter.
pub proof fn law_non_painting_layer_irrelevant(layers: Seq<LayerModel>, k: int, x: int, y: int)
    requires
        0 <= k < layers.len(),
        !paints(layers[k], x, y),
    ensures
        composite_cell(layers, layers.len(), x, y) == composite_cell(
            layers.remove(k),
            (layers.len() - 1) as nat,
            x,
            y,
        ),
{
    lemma_composite_skip(layers, k, layers.len(), x, y);
}

proof fn lemma_composite_skip(layers: Seq<LayerModel>, k: int, n: nat, x: int, y: int)
    requires
        0 <= k < n <= layers.len(),
        !paints(layers[k], x, y),
    ensures
        composite_cell(layers, n, x, y) == composite_cell(layers.remove(k), (n - 1) as nat, x, y),
    decreases n,
{
    let r = layers.remove(k);
    if n - 1 == k {
        assert(layers.subrange(0, k) =~= r.subrange(0, k));
        lemma_composite_prefix(layers, r, k as nat, x, y);
    } else {
        lemma_composite_skip(layers, k, (n - 1) as nat, x, y);
        assert(r[n - 2] == layers[n - 1]);
    }
}

proof fn lemma_composite_prefix(a: Seq<LayerModel>, b: Seq<LayerModel>, n: nat, x: int, y: int)
    requires
        n <= a.len(),
        n <= b.len(),
        a.subrange(0, n as int) == b.subrange(0, n as int),
    ensures
        composite_cell(a, n, x, y) == composite_cell(b, n, x, y),
    decreases n,
{
    if n > 0 {
        assert(a.subrange(0, n - 1) =~= b.subrange(0, n - 1)) by {
            assert forall|i: int| 0 <= i < n - 1 implies #[trigger] a.subrange(0, n - 1)[i] == b.subrange(
                0,
                n - 1,
            )[i] by {
                assert(a.subrange(0, n as int)[i] == b.subrange(0, n as int)[i]);
            }
        }
        assert(a[n - 1] == a.subrange(0, n as int)[n - 1]);
        assert(b[n - 1] == b.subrange(0, n as int)[n - 1]);
        lemma_composite_prefix(a, b, (n - 1) as nat, x, y);
    }
}

/// The index of the highest of the first `n` layers that paints (x, y).
pub open spec fn top_painter(layers: Seq<LayerModel>, n: nat, x: int, y: int) -> Option<int>
    decreases n,
{
    if n == 0 {
        None
    } else if paints(layers[n - 1], x, y) {
        Some(n - 1)
    } else {
        top_painter(layers, (n - 1) as nat, x, y)
    }
}

proof fn lemma_composite_top(layers: Seq<LayerModel>, n: nat, x: int, y: int)
    requires
        n <= layers.len(),
        forall|k: int| 0 <= k < layers.len() ==> (#[trigger] layers[k]).opacity == 255 && layers[k].blend_mode == BlendMode::Normal,
    ensures
        composite_cell(layers, n, x, y) == match top_painter(layers, n, x, y) {
            Some(k) => layers[k].grid.cell(x, y),
            None => blank_cell(),
        },
    decreases n,
{
    if n > 0 {
        lemma_composite_top(layers, (n - 1) as nat, x, y);
        assert(layers[n - 1].opacity == 255 && layers[n - 1].blend_mode == BlendMode::Normal);
    }
}

/// When every layer is opaque and blends normally, the composite at a
/// position shows the cell of the highest layer that paints there
/// (visible, covering it, not blank and not masked out), or a blank cell
/// when none does.
pub proof fn law_composite_shows_top_cell(layers: Seq<LayerModel>, x: int, y: int)
    requires
        forall|k: int| 0 <= k < layers.len() ==> (#[trigger] layers[k]).opacity == 255 && layers[k].blend_mode == BlendMode::Normal,
    ensures
        composite_cell(layers, layers.len(), x, y) == match top_painter(layers, layers.len(), x, y) {
            Some(k) => layers[k].grid.cell(x, y),
            None => blank_cell(),
        },
{
    lemma_composite_top(layers, layers.len(), x, y);
}

/// The top layer, when it paints a position at full opacity with normal
/// blending, is what the composite shows there.
pub proof fn law_opaque_top_layer_wins(layers: Seq<LayerModel>, x: int, y: int)
    requires
        layers.len() > 0,
        paints(layers.last(), x, y),
        layers.last().opacity == 255,
        layers.last().blend_mode == BlendMode::Normal,
    ensures
        composite_cell(layers, layers.len(), x, y) == layers.last().grid.cell(x, y),
{
}

/// Mixing at full opacity gives the top channel, at zero opacity the
/// bottom one.
pub proof fn law_mix_endpoints(top: int, bottom: int)
    requires
        0 <= top <= 255,
        0 <= bottom <= 255,
    ensures
        spec_mix(top, bottom, 255) == top,
        spec_mix(top, bottom, 0) == bottom,
{
    assert((top * 255 + bottom * 0 + 127) / 255 == top) by (nonlinear_arith)
        requires
            0 <= top <= 255,
    ;
    assert((top * 0 + bottom * 255 + 127) / 255 == bottom) by (nonlinear_arith)
        requires
            0 <= bottom <= 255,
    ;
}

/// Multiplying by white, screening over black and adding black leave the
/// top channel as it is.
pub proof fn law_blend_identities(top: int)
    requires
        0 <= top <= 255,
    ensures
        spec_blend_channel(top, 255, BlendMode::Multiply) == top,
        spec_blend_channel(top, 0, BlendMode::Screen) == top,
        spec_blend_channel(top, 0, BlendMode::Add) == top,
        spec_blend_channel(top, 0, BlendMode::Subtract) == 0,
{
    assert(top * 255 / 255 == top) by (nonlinear_arith)
        requires
            0 <= top <= 255,
    ;
    assert((255 - top) * 255 / 255 == 255 - top) by (nonlinear_arith)
        requires
            0 <= top <= 255,
    ;
}


/// A visible layer laid at opacity `o` (strictly between 0 and 255) with
/// normal blending over a composite whose background at (x, y) is RGB,
/// while its own cell there has an RGB background: the composite
/// background is, channel by channel, the opacity mix
/// `(top * o + below * (255 - o) + 127) / 255` of the two.
pub proof fn law_translucent_layer_mixes_background(
    layers: Seq<LayerModel>,
    x: int,
    y: int,
    tr: u8,
    tg: u8,
    tb: u8,
    br: u8,
    bg: u8,
    bb: u8,
)
    requires
        layers.len() > 0,
        paints(layers.last(), x, y),
        0 < layers.last().opacity < 255,
        layers.last().blend_mode == BlendMode::Normal,
        layers.last().grid.cell(x, y).bg == Some(Color::Rgb(tr, tg, tb)),
        composite_cell(layers, (layers.len() - 1) as nat, x, y).bg == Some(Color::Rgb(br, bg, bb)),
    ensures
        ({
            let o = layers.last().opacity as int;
            composite_cell(layers, layers.len(), x, y).bg == Some(
                Color::Rgb(
                    ((tr * o + br * (255 - o) + 127) / 255) as u8,
                    ((tg * o + bg * (255 - o) + 127) / 255) as u8,
                    ((tb * o + bb * (255 - o) + 127) / 255) as u8,
                ),
            )
        }),
        composite_cell(layers, layers.len(), x, y).ch == layers.last().grid.cell(x, y).ch,
{
    assert(layers[layers.len() - 1] == layers.last());
}

/// The same as `law_translucent_layer_mixes_background`, for the
/// foreground: a translucent layer's RGB foreground is mixed with the one
/// below by its opacity.
pub proof fn law_translucent_layer_mixes_foreground(
    layers: Seq<LayerModel>,
    x: int,
    y: int,
    tr: u8,
    tg: u8,
    tb: u8,
    br: u8,
    bg: u8,
    bb: u8,
)
    requires
        layers.len() > 0,
        paints(layers.last(), x, y),
        0 < layers.last().opacity < 255,
        layers.last().blend_mode == BlendMode::Normal,
        layers.last().grid.cell(x, y).fg == Some(Color::Rgb(tr, tg, tb)),
        composite_cell(layers, (layers.len() - 1) as nat, x, y).fg == Some(Color::Rgb(br, bg, bb)),
    ensures
        ({
            let o = layers.last().opacity as int;
            composite_cell(layers, layers.len(), x, y).fg == Some(
                Color::Rgb(
                    ((tr * o + br * (255 - o) + 127) / 255) as u8,
                    ((tg * o + bg * (255 - o) + 127) / 255) as u8,
                    ((tb * o + bb * (255 - o) + 127) / 255) as u8,
                ),
            )
        }),
{
    assert(layers[layers.len() - 1] == layers.last());
}

/// Foreground and background are laid by the same law: when the top
/// layer's cell has the same colour as foreground and background, and so
/// has the composite below it, the composite keeps them equal, whatever
/// the opacity and blend mode.
pub proof fn law_foreground_and_background_alike(layers: Seq<LayerModel>, x: int, y: int)
    requires
        layers.len() > 0,
        layers.last().grid.cell(x, y).fg == layers.last().grid.cell(x, y).bg,
        composite_cell(layers, (layers.len() - 1) as nat, x, y).fg == composite_cell(
            layers,
            (layers.len() - 1) as nat,
            x,
            y,
        ).bg,
    ensures
        composite_cell(layers, layers.len(), x, y).fg == composite_cell(layers, layers.len(), x, y).bg,
{
    assert(layers[layers.len() - 1] == layers.last());
}

/// A fully opaque layer in Multiply mode over an RGB background: the
/// composite background is, channel by channel, the product of the two
/// scaled back to 0..255 (`top * below / 255`).
pub proof fn law_opaque_multiply_layer_background(
    layers: Seq<LayerModel>,
    x: int,
    y: int,
    tr: u8,
    tg: u8,
    tb: u8,
    br: u8,
    bg: u8,
    bb: u8,
)
    requires
        layers.len() > 0,
        paints(layers.last(), x, y),
        layers.last().opacity == 255,
        layers.last().blend_mode == BlendMode::Multiply,
        layers.last().grid.cell(x, y).bg == Some(Color::Rgb(tr, tg, tb)),
        composite_cell(layers, (layers.len() - 1) as nat, x, y).bg == Some(Color::Rgb(br, bg, bb)),
    ensures
        composite_cell(layers, layers.len(), x, y).bg == Some(
            Color::Rgb((tr * br / 255) as u8, (tg * bg / 255) as u8, (tb * bb / 255) as u8),
        ),
{
    assert(layers[layers.len() - 1] == layers.last());
    lemma_blend_channel_bounds(tr as int, br as int, BlendMode::Multiply);
    lemma_blend_channel_bounds(tg as int, bg as int, BlendMode::Multiply);
    lemma_blend_channel_bounds(tb as int, bb as int, BlendMode::Multiply);
    let mr = tr * br / 255;
    let mg = tg * bg / 255;
    let mb = tb * bb / 255;
    law_mix_endpoints(mr, br as int);
    law_mix_endpoints(mg, bg as int);
    law_mix_endpoints(mb, bb as int);
}

/// A layer at opacity 0 leaves the composite as the layers below it make
/// it.
pub proof fn law_transparent_layer_invisible(layers: Seq<LayerModel>, x: int, y: int)
    requires
        layers.len() > 0,
        layers.last().opacity == 0,
    ensures
        composite_cell(layers, layers.len(), x, y) == composite_cell(layers, (layers.len() - 1) as nat, x, y),
{
    assert(layers[layers.len() - 1] == layers.last());
}

/// Blending with a mode other than Normal blends RGB pairs only: when the
/// top colour is there and the two are not both RGB, the top colour is
/// kept, never replaced by the one below.
pub proof fn law_blend_keeps_non_rgb_top(t: Color, bottom: Option<Color>, mode: BlendMode)
    requires
        !(t is Rgb && bottom matches Some(Color::Rgb(_, _, _))),
    ensures
        spec_blend_mode_color(Some(t), bottom, mode) == Some(t),
{
}

/// Normal blending keeps the top colour; in the other modes a missing top
/// colour gives way to the one below.
pub proof fn law_blend_missing_and_normal(top: Option<Color>, bottom: Option<Color>, mode: BlendMode)
    ensures
        spec_blend_mode_color(top, bottom, BlendMode::Normal) == top,
        mode != BlendMode::Normal && top is None ==> spec_blend_mode_color(top, bottom, mode) == bottom,
{
}

/// How the modes treat two channels: Normal keeps the top one; Multiply
/// never lightens either and gives black over black, Screen never darkens
/// either and gives white over white, Add never darkens and Subtract never
/// lightens the one below; Multiply, Screen and Add do not care which
/// channel is on top; Overlay keeps black and white below as they are,
/// darkens with a black top and lightens with a white one.
pub proof fn law_blend_channel_orders(top: int, bottom: int)
    requires
        0 <= top <= 255,
        0 <= bottom <= 255,
    ensures
        spec_blend_channel(top, bottom, BlendMode::Multiply) <= top,
        spec_blend_channel(top, bottom, BlendMode::Multiply) <= bottom,
        spec_blend_channel(top, bottom, BlendMode::Screen) >= top,
        spec_blend_channel(top, bottom, BlendMode::Screen) >= bottom,
        spec_blend_channel(top, bottom, BlendMode::Add) >= top,
        spec_blend_channel(top, bottom, BlendMode::Add) >= bottom,
        spec_blend_channel(top, bottom, BlendMode::Subtract) <= bottom,
        spec_blend_channel(top, bottom, BlendMode::Multiply) == spec_blend_channel(bottom, top, BlendMode::Multiply),
        spec_blend_channel(top, bottom, BlendMode::Screen) == spec_blend_channel(bottom, top, BlendMode::Screen),
        spec_blend_channel(top, bottom, BlendMode::Add) == spec_blend_channel(bottom, top, BlendMode::Add),
        spec_blend_channel(top, 0, BlendMode::Multiply) == 0,
        spec_blend_channel(top, 255, BlendMode::Screen) == 255,
        spec_blend_channel(top, 0, BlendMode::Overlay) == 0,
        spec_blend_channel(top, 255, BlendMode::Overlay) == 255,
        spec_blend_channel(0, bottom, BlendMode::Overlay) <= bottom,
        spec_blend_channel(255, bottom, BlendMode::Overlay) >= bottom,
        spec_blend_channel(top, bottom, BlendMode::Normal) == top,
{
    if bottom >= 128 {
        assert(2 * 255 * (255 - bottom) / 255 == 2 * (255 - bottom)) by (nonlinear_arith)
            requires
                0 <= bottom <= 255,
        ;
    }
    assert(2 * top * 0 / 255 == 0) by (nonlinear_arith);
    assert(2 * (255 - top) * 0 / 255 == 0) by (nonlinear_arith);
    assert(2 * 255 * bottom / 255 == 2 * bottom) by (nonlinear_arith)
        requires
            0 <= bottom <= 255,
    ;
    assert(2 * (255 - 255) * (255 - bottom) / 255 == 0) by (nonlinear_arith);
    assert(top * bottom / 255 <= top) by (nonlinear_arith)
        requires
            0 <= top <= 255,
            0 <= bottom <= 255,
    ;
    assert(top * bottom / 255 <= bottom) by (nonlinear_arith)
        requires
            0 <= top <= 255,
            0 <= bottom <= 255,
    ;
    assert(top * bottom == bottom * top) by (nonlinear_arith);
    assert((255 - top) * (255 - bottom) / 255 <= 255 - top) by (nonlinear_arith)
        requires
            0 <= top <= 255,
            0 <= bottom <= 255,
    ;
    assert((255 - top) * (255 - bottom) / 255 <= 255 - bottom) by (nonlinear_arith)
        requires
            0 <= top <= 255,
            0 <= bottom <= 255,
    ;
    assert((255 - top) * (255 - bottom) == (255 - bottom) * (255 - top)) by (nonlinear_arith);
}

/// Merging a layer down: wherever the upper layer has a character other
/// than a space, the merged layer shows the upper layer's cell, whatever
/// the lower layer held there.
pub proof fn law_merge_upper_cells_win(r: GridModel, below: GridModel, above: GridModel, x: int, y: int)
    requires
        is_merge(r, below, above),
        r.in_bounds(x, y),
        above.in_bounds(x, y),
        above.cell(x, y).ch != ' ',
    ensures
        r.cell(x, y) == above.cell(x, y),
{
}

/// Merging a layer down keeps the lower layer's size, and its cells
/// wherever the upper layer has a space or does not reach.
pub proof fn law_merge_keeps_lower_elsewhere(r: GridModel, below: GridModel, above: GridModel, x: int, y: int)
    requires
        is_merge(r, below, above),
        r.in_bounds(x, y),
        !above.in_bounds(x, y) || above.cell(x, y).ch == ' ',
    ensures
        r.width == below.width,
        r.height == below.height,
        r.cell(x, y) == below.cell(x, y),
{
}

/// Merging agrees with the composite: where the upper layer has a
/// character other than a space, the merged cell is what the two layers
/// show when stacked visible, opaque, normally blended and unmasked.
pub proof fn law_merge_matches_composite(r: GridModel, lower: LayerModel, upper: LayerModel, x: int, y: int)
    requires
        is_merge(r, lower.grid, upper.grid),
        r.in_bounds(x, y),
        upper.grid.in_bounds(x, y),
        upper.grid.cell(x, y).ch != ' ',
        upper.visible,
        upper.opacity == 255,
        upper.blend_mode == BlendMode::Normal,
        upper.mask is None,
    ensures
        r.cell(x, y) == composite_cell(seq![lower, upper], 2, x, y),
{
    let ls = seq![lower, upper];
    assert(ls[1] == upper);
    assert(paints(upper, x, y));
}

/// The buttons under the layer list.
#[derive(Debug, Clone, Copy, PartialEq, Eq, Structural)]
pub enum LayerButton {
    New,
    Duplicate,
    Delete,
    Group,
    Link,
}


/// Moving to the previous blend mode undoes moving to the next one and
/// back, and six moves forward come back to the start.
pub proof fn law_blend_mode_cycle(m: BlendMode)
    ensures
        m.spec_next().spec_prev() == m,
        m.spec_prev().spec_next() == m,
        m.spec_next().spec_next().spec_next().spec_next().spec_next().spec_next() == m,
{
}

} // verus!
