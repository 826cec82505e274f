use vstd::prelude::*;

use crate::canvas::{CanvasBuffer, CanvasCell, GridModel};
use crate::layers::{LayerModel, LayerStack};

verus! {

/// A cell shows something: a glyph other than a space, or a colour.
pub open spec fn has_content(c: CanvasCell) -> bool {
    c.ch != ' ' || c.fg is Some || c.bg is Some
}

/// Layer `l` shows something at (x, y).
pub open spec fn marks(l: LayerModel, x: int, y: int) -> bool {
    &&& l.visible
    &&& l.grid.in_bounds(x, y)
    &&& has_content(l.grid.cell(x, y))
}

/// Some visible layer that casts shadows shows something at (x, y).
pub open spec fn shadow_at(layers: Seq<LayerModel>, n: int, x: int, y: int) -> bool {
    exists|i: int| 0 <= i < n && #[trigger] layers[i].casts_shadow && marks(layers[i], x, y)
}

/// Some visible layer that takes light shows something at (x, y).
pub open spec fn lit_at(layers: Seq<LayerModel>, n: int, x: int, y: int) -> bool {
    exists|i: int| 0 <= i < n && #[trigger] layers[i].accepts_lighting && marks(layers[i], x, y)
}

/// `m` holds `height` rows of `width` flags.
pub open spec fn mask_shape(m: Seq<Vec<bool>>, width: nat, height: nat) -> bool {
    &&& m.len() == height
    &&& forall|y: int| 0 <= y < height ==> (#[trigger] m[y])@.len() == width
}

/// `m` is a `width` x `height` grid of flags, flag (x, y) being `f(x, y)`.
pub open spec fn mask_is(m: Seq<Vec<bool>>, width: nat, height: nat, f: spec_fn(int, int) -> bool) -> bool {
    &&& mask_shape(m, width, height)
    &&& forall|x: int, y: int| 0 <= x < width && 0 <= y < height ==> (#[trigger] m[y]@[x]) == f(x, y)
}

fn false_mask(width: usize, height: usize) -> (m: Vec<Vec<bool>>)
    ensures
        mask_is(m@, width as nat, height as nat, |x: int, y: int| false),
{
    let mut m: Vec<Vec<bool>> = Vec::new();
    let mut y: usize = 0;
    while y < height
        invariant
            y <= height,
            m@.len() == y,
            forall|j: int| 0 <= j < y ==> (#[trigger] m@[j])@.len() == width,
            forall|i: int, j: int| 0 <= i < width && 0 <= j < y ==> !(#[trigger] m@[j]@[i]),
        decreases height - y,
    {
        let mut row: Vec<bool> = Vec::new();
        let mut x: usize = 0;
        while x < width
            invariant
                x <= width,
                row@.len() == x,
                forall|i: int| 0 <= i < x ==> !(#[trigger] row@[i]),
            decreases width - x,
        {
            row.push(false);
            x = x + 1;
        }
        m.push(row);
        y = y + 1;
    }
    m
}

/// Where the layers of `stack` cast shadows and where they take light,
/// over a `width` x `height` canvas: the first mask flags the cells where
/// a visible layer that casts shadows shows something, the second where a
/// visible layer that takes light does.
pub fn lighting_masks(width: usize, height: usize, stack: &LayerStack) -> (r: (Vec<Vec<bool>>, Vec<Vec<bool>>))
    requires
        stack@.wf(),
    ensures
        mask_is(r.0@, width as nat, height as nat, |x: int, y: int| shadow_at(stack@.layers, stack@.layers.len() as int, x, y)),
        mask_is(r.1@, width as nat, height as nat, |x: int, y: int| lit_at(stack@.layers, stack@.layers.len() as int, x, y)),
{
    let mut shadow = false_mask(width, height);
    let mut light = false_mask(width, height);
    let ghost layers = stack@.layers;
    let n = stack.layers.len();
    let mut k: usize = 0;
    while k < n
        invariant
            layers == stack@.layers,
            stack@.wf(),
            n == layers.len(),
            k <= n,
            mask_is(shadow@, width as nat, height as nat, |x: int, y: int| shadow_at(layers, k as int, x, y)),
            mask_is(light@, width as nat, height as nat, |x: int, y: int| lit_at(layers, k as int, x, y)),
        decreases n - k,
    {
        let layer = &stack.layers[k];
        assert(layers[k as int] == layer@);
        let ghost l = layer@;
        assert(l.wf());
        if layer.visible {
            let lh = layer.buffer.height();
            let lw = layer.buffer.width();
            let hh = if height < lh { height } else { lh };
            let ww = if width < lw { width } else { lw };
            let mut y: usize = 0;
            while y < hh
                invariant
                    layers == stack@.layers,
                    l == layers[k as int],
                    l.wf(),
                    l.visible,
                    k < n,
                    n == layers.len(),
                    hh <= height && hh <= l.grid.height,
                    ww <= width && ww <= l.grid.width,
                    lw == l.grid.width,
                    lh == l.grid.height,
                    y <= hh,
                    layer@ == l,
                    mask_is(shadow@, width as nat, height as nat, |x: int, yy: int| shadow_at(layers, k as int, x, yy)
                        || (yy < y && x < ww && l.casts_shadow && marks(l, x, yy))),
                    mask_is(light@, width as nat, height as nat, |x: int, yy: int| lit_at(layers, k as int, x, yy)
                        || (yy < y && x < ww && l.accepts_lighting && marks(l, x, yy))),
                decreases hh - y,
            {
                let mut x: usize = 0;
                while x < ww
                    invariant
                        layers == stack@.layers,
                        l == layers[k as int],
                        l.wf(),
                        l.visible,
                        k < n,
                        n == layers.len(),
                        hh <= height && hh <= l.grid.height,
                        ww <= width && ww <= l.grid.width,
                        y < hh,
                        x <= ww,
                        layer@ == l,
                        mask_is(shadow@, width as nat, height as nat, |xx: int, yy: int| shadow_at(layers, k as int, xx, yy)
                            || ((yy < y || (yy == y && xx < x)) && xx < ww && l.casts_shadow && marks(l, xx, yy))),
                        mask_is(light@, width as nat, height as nat, |xx: int, yy: int| lit_at(layers, k as int, xx, yy)
                            || ((yy < y || (yy == y && xx < x)) && xx < ww && l.accepts_lighting && marks(l, xx, yy))),
                    decreases ww - x,
                {
                    match layer.buffer.get(x, y) {
                        Some(cell) => {
                            let content = cell.ch != ' ' || cell.fg.is_some() || cell.bg.is_some();
                            if content {
                                if layer.casts_shadow {
                                    shadow[y].set(x, true);
                                }
                                if layer.accepts_lighting {
                                    light[y].set(x, true);
                                }
                            }
                        },
                        None => {},
                    }
                    x = x + 1;
                }
                y = y + 1;
            }
            proof {
                assert forall|xx: int, yy: int| 0 <= xx < width && 0 <= yy < height implies (#[trigger] shadow@[yy]@[xx]) == shadow_at(layers, k + 1, xx, yy) by {
                    if shadow_at(layers, k + 1, xx, yy) && !shadow_at(layers, k as int, xx, yy) {
                        let i = choose|i: int| 0 <= i < k + 1 && #[trigger] layers[i].casts_shadow && marks(layers[i], xx, yy);
                        assert(i == k);
                    }
                    if shadow_at(layers, k as int, xx, yy) {
                        let i = choose|i: int| 0 <= i < k && #[trigger] layers[i].casts_shadow && marks(layers[i], xx, yy);
                        assert(0 <= i < k + 1 && layers[i].casts_shadow && marks(layers[i], xx, yy));
                    }
                    if yy < hh && xx < ww && l.casts_shadow && marks(l, xx, yy) {
                        assert(0 <= k < k + 1 && layers[k as int].casts_shadow && marks(layers[k as int], xx, yy));
                    }
                }
                assert forall|xx: int, yy: int| 0 <= xx < width && 0 <= yy < height implies (#[trigger] light@[yy]@[xx]) == lit_at(layers, k + 1, xx, yy) by {
                    if lit_at(layers, k + 1, xx, yy) && !lit_at(layers, k as int, xx, yy) {
                        let i = choose|i: int| 0 <= i < k + 1 && #[trigger] layers[i].accepts_lighting && marks(layers[i], xx, yy);
                        assert(i == k);
                    }
                    if lit_at(layers, k as int, xx, yy) {
                        let i = choose|i: int| 0 <= i < k && #[trigger] layers[i].accepts_lighting && marks(layers[i], xx, yy);
                        assert(0 <= i < k + 1 && layers[i].accepts_lighting && marks(layers[i], xx, yy));
                    }
                    if yy < hh && xx < ww && l.accepts_lighting && marks(l, xx, yy) {
                        assert(0 <= k < k + 1 && layers[k as int].accepts_lighting && marks(layers[k as int], xx, yy));
                    }
                }
            }
        } else {
            proof {
                assert forall|xx: int, yy: int| 0 <= xx < width && 0 <= yy < height implies (#[trigger] shadow@[yy]@[xx]) == shadow_at(layers, k + 1, xx, yy) by {
                    if shadow_at(layers, k + 1, xx, yy) {
                        let i = choose|i: int| 0 <= i < k + 1 && #[trigger] layers[i].casts_shadow && marks(layers[i], xx, yy);
                        assert(i != k);
                    }
                }
                assert forall|xx: int, yy: int| 0 <= xx < width && 0 <= yy < height implies (#[trigger] light@[yy]@[xx]) == lit_at(layers, k + 1, xx, yy) by {
                    if lit_at(layers, k + 1, xx, yy) {
                        let i = choose|i: int| 0 <= i < k + 1 && #[trigger] layers[i].accepts_lighting && marks(layers[i], xx, yy);
                        assert(i != k);
                    }
                }
            }
        }
        k = k + 1;
    }
    (shadow, light)
}


/// The lit canvas: where `lighting` flags a cell, the cell `lit` gives for
/// it; elsewhere the composited cell.
pub fn compose_lit(composited: &CanvasBuffer, lighting: &Vec<Vec<bool>>, lit: &Vec<Vec<CanvasCell>>) -> (r: CanvasBuffer)
    requires
        composited@.wf(),
        mask_shape(lighting@, composited@.width, composited@.height),
        lit@.len() == composited@.height,
        forall|y: int| 0 <= y < composited@.height ==> (#[trigger] lit@[y])@.len() == composited@.width,
    ensures
        r@.wf(),
        r@.width == composited@.width,
        r@.height == composited@.height,
        forall|x: int, y: int| #![trigger r@.cell(x, y)] r@.in_bounds(x, y) ==> r@.cell(x, y) == (if lighting@[y]@[x] {
            lit@[y]@[x]
        } else {
            composited@.cell(x, y)
        }),
{
    let w = composited.width();
    let h = composited.height();
    let mut r = CanvasBuffer::new(w, h);
    let mut y: usize = 0;
    while y < h
        invariant
            composited@.wf(),
            w == composited@.width,
            h == composited@.height,
            mask_shape(lighting@, composited@.width, composited@.height),
            lit@.len() == h,
            forall|yy: int| 0 <= yy < h ==> (#[trigger] lit@[yy])@.len() == w,
            y <= h,
            r@.wf(),
            r@.width == w,
            r@.height == h,
            forall|x: int, yy: int| #![trigger r@.cell(x, yy)] r@.in_bounds(x, yy) && yy < y ==> r@.cell(x, yy) == (if lighting@[yy]@[x] {
                lit@[yy]@[x]
            } else {
                composited@.cell(x, yy)
            }),
        decreases h - y,
    {
        let mut x: usize = 0;
        while x < w
            invariant
                composited@.wf(),
                w == composited@.width,
                h == composited@.height,
                mask_shape(lighting@, composited@.width, composited@.height),
                lit@.len() == h,
                forall|yy: int| 0 <= yy < h ==> (#[trigger] lit@[yy])@.len() == w,
                y < h,
                x <= w,
                r@.wf(),
                r@.width == w,
                r@.height == h,
                forall|xx: int, yy: int| #![trigger r@.cell(xx, yy)] r@.in_bounds(xx, yy) && (yy < y || (yy == y && xx < x)) ==> r@.cell(xx, yy) == (if lighting@[yy]@[xx] {
                    lit@[yy]@[xx]
                } else {
                    composited@.cell(xx, yy)
                }),
            decreases w - x,
        {
            let cell = if lighting[y][x] {
                lit[y][x]
            } else {
                match composited.get(x, y) {
                    Some(c) => *c,
                    None => CanvasCell::blank(),
                }
            };
            r.set(x, y, cell);
            x = x + 1;
        }
        y = y + 1;
    }
    r
}
} // verus!
