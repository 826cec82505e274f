use vstd::prelude::*;

use crate::canvas::{CanvasBuffer, Color, GridModel, TextOverlay};
use crate::text::strings_view;

verus! {

/// What one terminal cell shows: a glyph, its colours (`None`: the
/// terminal's default) and the dim, bold and reversed attributes.
#[derive(Debug, Clone, Copy, PartialEq, Eq, Structural)]
pub struct TermCell {
    pub ch: char,
    pub fg: Option<Color>,
    pub bg: Option<Color>,
    pub dim: bool,
    pub bold: bool,
    pub reversed: bool,
}

/// The rows of a picture.
pub open spec fn picture(f: Seq<Vec<TermCell>>) -> Seq<Seq<TermCell>> {
    f.map_values(|r: Vec<TermCell>| r@)
}

/// `p` holds `h` rows of `w` cells.
pub open spec fn shaped(p: Seq<Seq<TermCell>>, w: nat, h: nat) -> bool {
    &&& p.len() == h
    &&& forall|r: int| 0 <= r < h ==> (#[trigger] p[r]).len() == w
}

/// The cell after the canvas cell at (`bx`, `by`) is drawn over `prev`: its
/// glyph, and its colours where it has them; a blank outside the canvas.
pub open spec fn base_cell(prev: TermCell, g: GridModel, bx: int, by: int) -> TermCell {
    if g.in_bounds(bx, by) {
        let c = g.cell(bx, by);
        TermCell {
            ch: c.ch,
            fg: if c.fg is Some { c.fg } else { prev.fg },
            bg: if c.bg is Some { c.bg } else { prev.bg },
            ..prev
        }
    } else {
        TermCell { ch: ' ', ..prev }
    }
}

/// The grid line drawn at (`c`, `r`) for cells `z` wide, `vis_w` by
/// `vis_h` of them showing: vertical lines between columns, horizontal ones
/// between rows, crosses where they meet; dimmed.
pub open spec fn grid_cell(prev: TermCell, c: int, r: int, z: int, vis_w: int, vis_h: int) -> TermCell {
    let on_v = c % z == 0 && 1 <= c / z < vis_w;
    let on_h = r % z == 0 && 1 <= r / z < vis_h;
    if on_v {
        TermCell { ch: if r % z == 0 && r > 0 { '┼' } else { '│' }, dim: true, ..prev }
    } else if on_h {
        TermCell { ch: if c % z == 0 && c > 0 { '┼' } else { '─' }, dim: true, ..prev }
    } else {
        prev
    }
}

/// The cursor's cells are drawn reversed.
pub open spec fn cursor_cell(prev: TermCell, c: int, r: int, z: int, cur: (int, int), sx: int, sy: int, vis_w: int, vis_h: int) -> TermCell {
    if sx <= cur.0 < sx + vis_w && sy <= cur.1 < sy + vis_h && c / z == cur.0 - sx && r / z == cur.1 - sy {
        TermCell { reversed: true, ..prev }
    } else {
        prev
    }
}

/// Every cell of `p` changed by `f`.
pub open spec fn each_cell(p: Seq<Seq<TermCell>>, f: spec_fn(TermCell, int, int) -> TermCell) -> Seq<Seq<TermCell>> {
    Seq::new(p.len(), |r: int| Seq::new(p[r].len(), |c: int| f(p[r][c], c, r)))
}


/// Draw the canvas cells over the picture: terminal cell (c, r) shows
/// canvas cell (sx + c / z, sy + r / z).
fn paint_base(frame: &Vec<Vec<TermCell>>, w: u16, h: u16, buf: &CanvasBuffer, sx: u16, sy: u16, z: u16) -> (out: Vec<Vec<TermCell>>)
    requires
        shaped(picture(frame@), w as nat, h as nat),
        buf@.wf(),
        z >= 1,
        w > 0 ==> sx + (w - 1) / (z as int) <= u16::MAX,
        h > 0 ==> sy + (h - 1) / (z as int) <= u16::MAX,
    ensures
        picture(out@) == each_cell(picture(frame@), |p: TermCell, c: int, r: int| base_cell(p, buf@, sx + c / (z as int), sy + r / (z as int))),
{
    let ghost want = each_cell(picture(frame@), |p: TermCell, c: int, r: int| base_cell(p, buf@, sx + c / (z as int), sy + r / (z as int)));
    let mut out: Vec<Vec<TermCell>> = Vec::new();
    let mut r: u16 = 0;
    while r < h
        invariant
            shaped(picture(frame@), w as nat, h as nat),
            buf@.wf(),
            z >= 1,
            w > 0 ==> sx + (w - 1) / (z as int) <= u16::MAX,
            h > 0 ==> sy + (h - 1) / (z as int) <= u16::MAX,
            want == each_cell(picture(frame@), |p: TermCell, c: int, r: int| base_cell(p, buf@, sx + c / (z as int), sy + r / (z as int))),
            r <= h,
            out@.len() == r,
            forall|k: int| 0 <= k < r ==> (#[trigger] out@[k])@ == want[k],
        decreases h - r,
    {
        assert(picture(frame@)[r as int] == frame@[r as int]@);
        let mut row: Vec<TermCell> = Vec::new();
        let mut c: u16 = 0;
        while c < w
            invariant
                shaped(picture(frame@), w as nat, h as nat),
                buf@.wf(),
                z >= 1,
                w > 0 ==> sx + (w - 1) / (z as int) <= u16::MAX,
                h > 0 ==> sy + (h - 1) / (z as int) <= u16::MAX,
                want == each_cell(picture(frame@), |p: TermCell, c: int, r: int| base_cell(p, buf@, sx + c / (z as int), sy + r / (z as int))),
                r < h,
                c <= w,
                frame@[r as int]@.len() == w,
                row@.len() == c,
                forall|k: int| 0 <= k < c ==> #[trigger] row@[k] == want[r as int][k],
            decreases w - c,
        {
            proof {
                assert((c as int) / (z as int) <= (w as int - 1) / (z as int)) by (nonlinear_arith)
                    requires c < w, z >= 1;
                assert((r as int) / (z as int) <= (h as int - 1) / (z as int)) by (nonlinear_arith)
                    requires r < h, z >= 1;
            }
            let bx = sx + c / z;
            let by = sy + r / z;
            let prev = frame[r as usize][c as usize];
            let cell = match buf.get(bx as usize, by as usize) {
                Some(cc) => TermCell {
                    ch: cc.ch,
                    fg: if cc.fg.is_some() { cc.fg } else { prev.fg },
                    bg: if cc.bg.is_some() { cc.bg } else { prev.bg },
                    ..prev
                },
                None => TermCell { ch: ' ', ..prev },
            };
            row.push(cell);
            c = c + 1;
        }
        assert(row@ =~= want[r as int]);
        out.push(row);
        r = r + 1;
    }
    assert(picture(out@) =~= want);
    out
}

/// A 16-bit position read as a signed 16-bit number.
pub open spec fn as_i16(v: int) -> int {
    if v < 32768 {
        v
    } else {
        v - 65536
    }
}

/// A signed 16-bit position read as an unsigned one, less `s`.
pub open spec fn offset_from(v: i16, s: int) -> int {
    (v + 65536) % 65536 - s
}

/// Vertex `v` lies in the part of the canvas shown from (`sx`, `sy`),
/// `vis_w` by `vis_h` cells, compared as signed 16-bit positions.
pub open spec fn vertex_shows(v: (i16, i16), sx: int, sy: int, vis_w: int, vis_h: int) -> bool {
    &&& as_i16(sx) <= v.0 < as_i16(sx + vis_w)
    &&& as_i16(sy) <= v.1 < as_i16(sy + vis_h)
}

/// Some shown vertex of `verts` covers terminal cell (`c`, `r`).
pub open spec fn vertex_covers(verts: Seq<(i16, i16)>, c: int, r: int, z: int, sx: int, sy: int, vis_w: int, vis_h: int) -> bool {
    exists|k: int| 0 <= k < verts.len() && vertex_shows(#[trigger] verts[k], sx, sy, vis_w, vis_h)
        && c / z == offset_from(verts[k].0, sx) && r / z == offset_from(verts[k].1, sy)
}

/// A cell under a polygon vertex: in the selection colour, bold, with a
/// `+` where it was blank.
pub open spec fn vertex_cell(prev: TermCell, sel: Color) -> TermCell {
    TermCell { ch: if prev.ch == ' ' { '+' } else { prev.ch }, fg: Some(sel), bold: true, ..prev }
}

fn grid_at(prev: TermCell, c: u16, r: u16, z: u16, vis_w: u16, vis_h: u16) -> (t: TermCell)
    requires
        z >= 1,
    ensures
        t == grid_cell(prev, c as int, r as int, z as int, vis_w as int, vis_h as int),
{
    let on_v = c % z == 0 && 1 <= c / z && c / z < vis_w;
    let on_h = r % z == 0 && 1 <= r / z && r / z < vis_h;
    if on_v {
        TermCell { ch: if r % z == 0 && r > 0 { '┼' } else { '│' }, dim: true, ..prev }
    } else if on_h {
        TermCell { ch: if c % z == 0 && c > 0 { '┼' } else { '─' }, dim: true, ..prev }
    } else {
        prev
    }
}

fn cursor_at(prev: TermCell, c: u16, r: u16, z: u16, cur: (u16, u16), sx: u16, sy: u16, vis_w: u16, vis_h: u16) -> (t: TermCell)
    requires
        z >= 1,
        sx + vis_w <= u16::MAX,
        sy + vis_h <= u16::MAX,
    ensures
        t == cursor_cell(prev, c as int, r as int, z as int, (cur.0 as int, cur.1 as int), sx as int, sy as int, vis_w as int, vis_h as int),
{
    if sx <= cur.0 && cur.0 < sx + vis_w && sy <= cur.1 && cur.1 < sy + vis_h && c / z == cur.0 - sx && r / z == cur.1 - sy {
        TermCell { reversed: true, ..prev }
    } else {
        prev
    }
}

/// A position as a signed 16-bit number, widened.
fn signed(v: u16) -> (r: i32)
    ensures
        r == as_i16(v as int),
{
    if v < 32768 {
        v as i32
    } else {
        v as i32 - 65536
    }
}

fn vertex_at(verts: &[(i16, i16)], c: u16, r: u16, z: u16, sx: u16, sy: u16, vis_w: u16, vis_h: u16) -> (b: bool)
    requires
        z >= 1,
        sx + vis_w <= u16::MAX,
        sy + vis_h <= u16::MAX,
    ensures
        b == vertex_covers(verts@, c as int, r as int, z as int, sx as int, sy as int, vis_w as int, vis_h as int),
{
    let x0 = signed(sx);
    let x1 = signed(sx + vis_w);
    let y0 = signed(sy);
    let y1 = signed(sy + vis_h);
    let mut k: usize = 0;
    while k < verts.len()
        invariant
            k <= verts@.len(),
            z >= 1,
            x0 == as_i16(sx as int),
            x1 == as_i16(sx + vis_w),
            y0 == as_i16(sy as int),
            y1 == as_i16(sy + vis_h),
            forall|j: int| 0 <= j < k ==> !(vertex_shows(#[trigger] verts@[j], sx as int, sy as int, vis_w as int, vis_h as int)
                && c / z == offset_from(verts@[j].0, sx as int) && r / z == offset_from(verts@[j].1, sy as int)),
        decreases verts@.len() - k,
    {
        let (vx, vy) = verts[k];
        let shows = x0 <= vx as i32 && (vx as i32) < x1 && y0 <= vy as i32 && (vy as i32) < y1;
        if shows {
            let ox: i32 = (vx as i32 + 65536) % 65536 - sx as i32;
            let oy: i32 = (vy as i32 + 65536) % 65536 - sy as i32;
            if (c / z) as i32 == ox && (r / z) as i32 == oy {
                assert(vertex_shows(verts@[k as int], sx as int, sy as int, vis_w as int, vis_h as int));
                return true;
            }
        }
        k = k + 1;
    }
    false
}

fn outline_at(prev: TermCell, pts: &Vec<(usize, usize)>, c: u16, r: u16, z: u16, sx: u16, sy: u16, vis_w: u16, vis_h: u16, color: Color) -> (t: TermCell)
    requires
        z >= 1,
        sx + vis_w <= u16::MAX,
        sy + vis_h <= u16::MAX,
    ensures
        t == outline_cell(prev, pts@, c as int, r as int, z as int, sx as int, sy as int, vis_w as int, vis_h as int, color),
{
    let cz = (c / z) as usize;
    let rz = (r / z) as usize;
    let x1 = (sx + vis_w) as usize;
    let y1 = (sy + vis_h) as usize;
    let mut covered = false;
    let mut even = false;
    let mut k: usize = 0;
    while k < pts.len()
        invariant
            k <= pts@.len(),
            z >= 1,
            cz == c / z,
            rz == r / z,
            x1 == sx + vis_w,
            y1 == sy + vis_h,
            covered == exists|j: int| 0 <= j < k && #[trigger] point_covers(pts@, j, c as int, r as int, z as int, sx as int, sy as int, vis_w as int, vis_h as int),
            even == exists|j: int| 0 <= j < k && j % 2 == 0 && #[trigger] point_covers(pts@, j, c as int, r as int, z as int, sx as int, sy as int, vis_w as int, vis_h as int),
        decreases pts@.len() - k,
    {
        let (bx, by) = pts[k];
        let hit = (sx as usize) <= bx && bx < x1 && (sy as usize) <= by && by < y1 && bx - (sx as usize) == cz && by - (sy as usize) == rz;
        proof {
            assert(hit == point_covers(pts@, k as int, c as int, r as int, z as int, sx as int, sy as int, vis_w as int, vis_h as int));
        }
        if hit {
            covered = true;
            if k % 2 == 0 {
                even = true;
            }
        }
        k = k + 1;
    }
    if covered {
        TermCell { ch: if even { '▒' } else { prev.ch }, fg: Some(color), bold: true, ..prev }
    } else {
        prev
    }
}

/// The picture under one of the per-cell passes.
pub enum CellPass {
    Grid(u16, u16),
    Vertices(Color),
    Outline(Color),
    Cursor((u16, u16)),
}

/// What a per-cell pass makes of the cell at (`c`, `r`), for cells `z`
/// wide scrolled by (`sx`, `sy`) with `vis_w` by `vis_h` canvas cells
/// showing, polygon vertices `verts` and outline points `pts` (in drawing
/// order).
pub open spec fn pass_cell(pass: CellPass, prev: TermCell, c: int, r: int, z: int, sx: int, sy: int, vis_w: int, vis_h: int, verts: Seq<(i16, i16)>, pts: Seq<(usize, usize)>) -> TermCell {
    match pass {
        CellPass::Outline(color) => outline_cell(prev, pts, c, r, z, sx, sy, vis_w, vis_h, color),
        CellPass::Grid(gw, gh) => grid_cell(prev, c, r, z, gw as int, gh as int),
        CellPass::Vertices(sel) => if vertex_covers(verts, c, r, z, sx, sy, vis_w, vis_h) {
            vertex_cell(prev, sel)
        } else {
            prev
        },
        CellPass::Cursor(cur) => cursor_cell(prev, c, r, z, (cur.0 as int, cur.1 as int), sx, sy, vis_w, vis_h),
    }
}

fn paint_cells(frame: Vec<Vec<TermCell>>, w: u16, h: u16, pass: &CellPass, z: u16, sx: u16, sy: u16, vis_w: u16, vis_h: u16, verts: &[(i16, i16)], pts: &Vec<(usize, usize)>) -> (out: Vec<Vec<TermCell>>)
    requires
        shaped(picture(frame@), w as nat, h as nat),
        z >= 1,
        sx + vis_w <= u16::MAX,
        sy + vis_h <= u16::MAX,
    ensures
        picture(out@) == each_cell(picture(frame@), |p: TermCell, c: int, r: int| pass_cell(*pass, p, c, r, z as int, sx as int, sy as int, vis_w as int, vis_h as int, verts@, pts@)),
{
    let ghost want = each_cell(picture(frame@), |p: TermCell, c: int, r: int| pass_cell(*pass, p, c, r, z as int, sx as int, sy as int, vis_w as int, vis_h as int, verts@, pts@));
    let mut out: Vec<Vec<TermCell>> = Vec::new();
    let mut r: u16 = 0;
    while r < h
        invariant
            shaped(picture(frame@), w as nat, h as nat),
            z >= 1,
            sx + vis_w <= u16::MAX,
            sy + vis_h <= u16::MAX,
            want == each_cell(picture(frame@), |p: TermCell, c: int, r: int| pass_cell(*pass, p, c, r, z as int, sx as int, sy as int, vis_w as int, vis_h as int, verts@, pts@)),
            r <= h,
            out@.len() == r,
            forall|k: int| 0 <= k < r ==> (#[trigger] out@[k])@ == want[k],
        decreases h - r,
    {
        assert(picture(frame@)[r as int] == frame@[r as int]@);
        let mut row: Vec<TermCell> = Vec::new();
        let mut c: u16 = 0;
        while c < w
            invariant
                shaped(picture(frame@), w as nat, h as nat),
                z >= 1,
                sx + vis_w <= u16::MAX,
                sy + vis_h <= u16::MAX,
                want == each_cell(picture(frame@), |p: TermCell, c: int, r: int| pass_cell(*pass, p, c, r, z as int, sx as int, sy as int, vis_w as int, vis_h as int, verts@, pts@)),
                r < h,
                c <= w,
                frame@[r as int]@.len() == w,
                row@.len() == c,
                forall|k: int| 0 <= k < c ==> #[trigger] row@[k] == want[r as int][k],
            decreases w - c,
        {
            let prev = frame[r as usize][c as usize];
            let cell = match pass {
                CellPass::Grid(gw, gh) => grid_at(prev, c, r, z, *gw, *gh),
                CellPass::Vertices(sel) => if vertex_at(verts, c, r, z, sx, sy, vis_w, vis_h) {
                    TermCell { ch: if prev.ch == ' ' { '+' } else { prev.ch }, fg: Some(*sel), bold: true, ..prev }
                } else {
                    prev
                },
                CellPass::Outline(color) => outline_at(prev, pts, c, r, z, sx, sy, vis_w, vis_h, *color),
                CellPass::Cursor(cur) => cursor_at(prev, c, r, z, *cur, sx, sy, vis_w, vis_h),
            };
            row.push(cell);
            c = c + 1;
        }
        assert(row@ =~= want[r as int]);
        out.push(row);
        r = r + 1;
    }
    assert(picture(out@) =~= want);
    out
}

/// The key a perimeter point is ordered by: `x + y * m`.
pub open spec fn point_key(p: (usize, usize), m: int) -> int {
    p.0 + p.1 * m
}

/// `s` with `p` inserted after every point whose key is not greater.
pub open spec fn insert_by(s: Seq<(usize, usize)>, p: (usize, usize), m: int) -> Seq<(usize, usize)>
    decreases s.len(),
{
    if s.len() == 0 {
        seq![p]
    } else if point_key(s.last(), m) <= point_key(p, m) {
        s.push(p)
    } else {
        insert_by(s.drop_last(), p, m).push(s.last())
    }
}

/// The points ordered by key, points of equal key in their order: what a
/// stable sort by key gives.
pub open spec fn sorted_by_key(s: Seq<(usize, usize)>, m: int) -> Seq<(usize, usize)>
    decreases s.len(),
{
    if s.len() == 0 {
        Seq::empty()
    } else {
        insert_by(sorted_by_key(s.drop_last(), m), s.last(), m)
    }
}

/// Point `p` lies in the part of the canvas shown from (`sx`, `sy`).
pub open spec fn point_shows(p: (usize, usize), sx: int, sy: int, vis_w: int, vis_h: int) -> bool {
    sx <= p.0 < sx + vis_w && sy <= p.1 < sy + vis_h
}

/// Point `k` of `pts` shows and covers terminal cell (`c`, `r`).
pub open spec fn point_covers(pts: Seq<(usize, usize)>, k: int, c: int, r: int, z: int, sx: int, sy: int, vis_w: int, vis_h: int) -> bool {
    &&& point_shows(pts[k], sx, sy, vis_w, vis_h)
    &&& c / z == pts[k].0 - sx
    &&& r / z == pts[k].1 - sy
}

/// A dashed outline through `pts` in `color`: in the order of
/// `sorted_by_key`, every other point (the first, third, ...) gets a `▒`;
/// all of them are drawn bold in the colour.
pub open spec fn outline_cell(prev: TermCell, sorted: Seq<(usize, usize)>, c: int, r: int, z: int, sx: int, sy: int, vis_w: int, vis_h: int, color: Color) -> TermCell {
    if exists|k: int| 0 <= k < sorted.len() && #[trigger] point_covers(sorted, k, c, r, z, sx, sy, vis_w, vis_h) {
        TermCell {
            ch: if exists|k: int| 0 <= k < sorted.len() && k % 2 == 0 && #[trigger] point_covers(sorted, k, c, r, z, sx, sy, vis_w, vis_h) {
                '▒'
            } else {
                prev.ch
            },
            fg: Some(color),
            bold: true,
            ..prev
        }
    } else {
        prev
    }
}

/// Every point's key fits in a `usize`.
pub open spec fn keys_fit(pts: Seq<(usize, usize)>, m: int) -> bool {
    forall|k: int| 0 <= k < pts.len() ==> point_key(#[trigger] pts[k], m) <= usize::MAX
}

proof fn lemma_insert_by_members(s: Seq<(usize, usize)>, p: (usize, usize), m: int)
    ensures
        forall|k: int| 0 <= k < insert_by(s, p, m).len() ==> (#[trigger] insert_by(s, p, m)[k] == p || s.contains(insert_by(s, p, m)[k])),
        insert_by(s, p, m).len() == s.len() + 1,
    decreases s.len(),
{
    if s.len() > 0 && point_key(s.last(), m) > point_key(p, m) {
        lemma_insert_by_members(s.drop_last(), p, m);
        let t = insert_by(s.drop_last(), p, m);
        assert forall|k: int| 0 <= k < insert_by(s, p, m).len() implies (#[trigger] insert_by(s, p, m)[k] == p || s.contains(insert_by(s, p, m)[k])) by {
            if k < t.len() {
                if t[k] != p {
                    let q = choose|q: int| 0 <= q < s.drop_last().len() && s.drop_last()[q] == t[k];
                    assert(s[q] == t[k]);
                }
            } else {
                assert(insert_by(s, p, m)[k] == s[s.len() - 1]);
            }
        }
    } else if s.len() > 0 {
        assert forall|k: int| 0 <= k < insert_by(s, p, m).len() implies (#[trigger] insert_by(s, p, m)[k] == p || s.contains(insert_by(s, p, m)[k])) by {
            if k < s.len() {
                assert(insert_by(s, p, m)[k] == s[k]);
            }
        }
    }
}

fn key_of(q: (usize, usize), m: usize) -> (k: usize)
    requires
        point_key(q, m as int) <= usize::MAX,
    ensures
        k == point_key(q, m as int),
{
    proof {
        assert(q.1 * m <= point_key(q, m as int)) by (nonlinear_arith)
            requires q.0 >= 0, q.1 >= 0, m >= 0;
    }
    q.0 + q.1 * m
}

/// Insert `p` after every point whose key is not greater: see `insert_by`.
fn insert_point(v: &mut Vec<(usize, usize)>, p: (usize, usize), m: usize)
    requires
        keys_fit(old(v)@, m as int),
        point_key(p, m as int) <= usize::MAX,
    ensures
        final(v)@ == insert_by(old(v)@, p, m as int),
{
    let ghost s = v@;
    let kp = key_of(p, m);
    let mut j: usize = v.len();
    assert(s.take(j as int) =~= s);
    assert(s.skip(j as int) =~= Seq::<(usize, usize)>::empty());
    assert(insert_by(s, p, m as int) =~= insert_by(s.take(j as int), p, m as int) + s.skip(j as int));
    while j > 0 && key_of(v[j - 1], m) > kp
        invariant
            v@ == s,
            j <= s.len(),
            keys_fit(s, m as int),
            kp == point_key(p, m as int),
            insert_by(s, p, m as int) == insert_by(s.take(j as int), p, m as int) + s.skip(j as int),
        decreases j,
    {
        proof {
            let t = s.take(j as int);
            assert(t.last() == s[j - 1]);
            assert(t.drop_last() =~= s.take(j - 1));
            assert(insert_by(t, p, m as int) == insert_by(s.take(j - 1), p, m as int).push(s[j - 1]));
            assert(insert_by(s.take(j - 1), p, m as int).push(s[j - 1]) + s.skip(j as int) =~= insert_by(s.take(j - 1), p, m as int) + s.skip(j - 1));
        }
        j = j - 1;
    }
    proof {
        let t = s.take(j as int);
        if j == 0 {
            assert(t =~= Seq::<(usize, usize)>::empty());
            assert(insert_by(t, p, m as int) == seq![p]);
        } else {
            assert(t.last() == s[j - 1]);
            assert(insert_by(t, p, m as int) == t.push(p));
        }
    }
    v.insert(j, p);
    proof {
        let t = s.take(j as int);
        assert(v@ =~= t.push(p) + s.skip(j as int));
        if j == 0 {
            assert(v@ =~= insert_by(t, p, m as int) + s.skip(j as int));
        }
    }
}

/// The points in the order of `sorted_by_key`.
fn sort_points(pts: &Vec<(usize, usize)>, m: usize) -> (r: Vec<(usize, usize)>)
    requires
        keys_fit(pts@, m as int),
    ensures
        r@ == sorted_by_key(pts@, m as int),
{
    let mut r: Vec<(usize, usize)> = Vec::new();
    let mut i: usize = 0;
    while i < pts.len()
        invariant
            i <= pts@.len(),
            keys_fit(pts@, m as int),
            r@ == sorted_by_key(pts@.take(i as int), m as int),
            forall|k: int| 0 <= k < r@.len() ==> pts@.contains(#[trigger] r@[k]),
        decreases pts@.len() - i,
    {
        let p = pts[i];
        proof {
            assert(pts@.take(i + 1).drop_last() =~= pts@.take(i as int));
            assert(pts@.take(i + 1).last() == p);
            assert forall|k: int| 0 <= k < r@.len() implies point_key(#[trigger] r@[k], m as int) <= usize::MAX by {
                let q = choose|q: int| 0 <= q < pts@.len() && pts@[q] == r@[k];
            }
            lemma_insert_by_members(r@, p, m as int);
        }
        insert_point(&mut r, p, m);
        proof {
            assert forall|k: int| 0 <= k < r@.len() implies pts@.contains(#[trigger] r@[k]) by {
                if r@[k] == p {
                    assert(pts@[i as int] == p);
                }
            }
        }
        i = i + 1;
    }
    assert(pts@.take(i as int) =~= pts@);
    r
}

/// `v` is a 16-bit signed number.
pub open spec fn in_i16(v: int) -> bool {
    -32768 <= v <= 32767
}

/// A count or index cut to 16 bits and read as a signed number.
pub open spec fn wrapped(v: int) -> int {
    as_i16(v % 65536)
}

/// The scale of an overlay: at least 1.
pub open spec fn scale_of(o: TextOverlay) -> int {
    if o.scale >= 1 {
        o.scale as int
    } else {
        1
    }
}

/// The height of an overlay in rows and its width in characters (of the
/// first row), as signed 16-bit numbers.
pub open spec fn overlay_size(o: TextOverlay) -> (int, int) {
    let rows = strings_view(o.rows@);
    (wrapped(rows.len() as int), if rows.len() > 0 { wrapped(rows[0].len() as int) } else { 0 })
}

/// Whether the overlay draws at all: it has rows, and neither size is 0.
pub open spec fn overlay_draws(o: TextOverlay) -> bool {
    o.rows@.len() > 0 && overlay_size(o).0 != 0 && overlay_size(o).1 != 0
}

/// The canvas position of glyph (`i`, `j`) of the overlay (row `i`,
/// character `j`): placed at (x, y), each glyph `scale` cells wide, turned
/// by the rotation (90, 180 or 270 degrees; anything else is upright).
pub open spec fn glyph_base(o: TextOverlay, i: int, j: int) -> (int, int) {
    let s = scale_of(o);
    let (h, w) = overlay_size(o);
    let cr = wrapped(i);
    let cc = wrapped(j);
    if o.rotation == 90 {
        (o.x + cr * s, o.y + (h - 1 - cc) * s)
    } else if o.rotation == 180 {
        (o.x + (w - 1 - cc) * s, o.y + (h - 1 - cr) * s)
    } else if o.rotation == 270 {
        (o.x + (h - 1 - cr) * s, o.y + cc * s)
    } else {
        (o.x + cc * s, o.y + cr * s)
    }
}

/// Placing glyph (`i`, `j`) stays within 16-bit signed arithmetic at every
/// step.
pub open spec fn glyph_fits(o: TextOverlay, i: int, j: int) -> bool {
    let s = scale_of(o);
    let (h, w) = overlay_size(o);
    let cr = wrapped(i);
    let cc = wrapped(j);
    let b = glyph_base(o, i, j);
    &&& in_i16(b.0 + s - 1)
    &&& in_i16(b.1 + s - 1)
    &&& if o.rotation == 90 {
        in_i16(cr * s) && in_i16(o.x + cr * s) && in_i16(h - 1) && in_i16(h - 1 - cc) && in_i16((h - 1 - cc) * s) && in_i16(b.1)
    } else if o.rotation == 180 {
        in_i16(w - 1) && in_i16(w - 1 - cc) && in_i16((w - 1 - cc) * s) && in_i16(b.0) && in_i16(h - 1) && in_i16(h - 1 - cr)
            && in_i16((h - 1 - cr) * s) && in_i16(b.1)
    } else if o.rotation == 270 {
        in_i16(h - 1) && in_i16(h - 1 - cr) && in_i16((h - 1 - cr) * s) && in_i16(b.0) && in_i16(cc * s) && in_i16(b.1)
    } else {
        in_i16(cc * s) && in_i16(b.0) && in_i16(cr * s) && in_i16(b.1)
    }
}

/// Every glyph of every overlay that draws is placed within 16-bit signed
/// arithmetic.
pub open spec fn overlays_fit(overlays: Seq<TextOverlay>) -> bool {
    forall|k: int, i: int, j: int| 0 <= k < overlays.len() && overlay_draws(overlays[k]) && 0 <= i < overlays[k].rows@.len()
        && 0 <= j < overlays[k].rows@[i]@.len() && overlays[k].rows@[i]@[j] != ' ' ==> #[trigger] glyph_fits(overlays[k], i, j)
}

/// Glyph (`i`, `j`) covers the canvas position (`px`, `py`) (16-bit
/// positions, shown from (`sx`, `sy`), `vis_w` by `vis_h` of them).
pub open spec fn glyph_covers(o: TextOverlay, i: int, j: int, px: int, py: int, sx: int, sy: int, vis_w: int, vis_h: int) -> bool {
    let b = glyph_base(o, i, j);
    let s = scale_of(o);
    &&& as_i16(sx) <= as_i16(px) < as_i16(sx + vis_w)
    &&& as_i16(sy) <= as_i16(py) < as_i16(sy + vis_h)
    &&& 0 <= as_i16(px) - b.0 < s
    &&& 0 <= as_i16(py) - b.1 < s
}

/// The character of the last glyph of row `i`, among its first `j`, that is
/// not a space and covers (`px`, `py`).
pub open spec fn row_cover(o: TextOverlay, i: int, j: int, px: int, py: int, sx: int, sy: int, vis_w: int, vis_h: int) -> Option<char>
    decreases j,
{
    if j <= 0 {
        None
    } else if o.rows@[i]@[j - 1] != ' ' && glyph_covers(o, i, j - 1, px, py, sx, sy, vis_w, vis_h) {
        Some(o.rows@[i]@[j - 1])
    } else {
        row_cover(o, i, j - 1, px, py, sx, sy, vis_w, vis_h)
    }
}

/// The character of the last glyph, in rows before `i`, that covers
/// (`px`, `py`): the one drawn last there.
pub open spec fn last_cover(o: TextOverlay, i: int, px: int, py: int, sx: int, sy: int, vis_w: int, vis_h: int) -> Option<char>
    decreases i,
{
    if i <= 0 {
        None
    } else {
        match row_cover(o, i - 1, o.rows@[i - 1]@.len() as int, px, py, sx, sy, vis_w, vis_h) {
            Some(ch) => Some(ch),
            None => last_cover(o, i - 1, px, py, sx, sy, vis_w, vis_h),
        }
    }
}

/// Terminal cell (`c`, `r`) after overlay `o` is drawn: the glyph drawn
/// last over it, in the overlay's colour when it has one.
pub open spec fn overlay_cell(prev: TermCell, o: TextOverlay, c: int, r: int, z: int, sx: int, sy: int, vis_w: int, vis_h: int) -> TermCell {
    if !overlay_draws(o) {
        prev
    } else {
        match last_cover(o, o.rows@.len() as int, sx + c / z, sy + r / z, sx, sy, vis_w, vis_h) {
            Some(ch) => TermCell { ch: ch, fg: if o.color is Some { o.color } else { prev.fg }, ..prev },
            None => prev,
        }
    }
}

/// The picture after the first `k` overlays are drawn over `p`.
pub open spec fn overlays_drawn(p: Seq<Seq<TermCell>>, overlays: Seq<TextOverlay>, k: int, z: int, sx: int, sy: int, vis_w: int, vis_h: int) -> Seq<Seq<TermCell>>
    decreases k,
{
    if k <= 0 {
        p
    } else {
        each_cell(
            overlays_drawn(p, overlays, k - 1, z, sx, sy, vis_w, vis_h),
            |q: TermCell, c: int, r: int| overlay_cell(q, overlays[k - 1], c, r, z, sx, sy, vis_w, vis_h),
        )
    }
}

fn wrap16(v: usize) -> (r: i32)
    ensures
        r == wrapped(v as int),
        -32768 <= r <= 32767,
{
    signed((v % 65536) as u16)
}

fn glyph_base_at(o: &TextOverlay, i: usize, j: usize, h: i32, w: i32, s: i32) -> (b: (i32, i32))
    requires
        h == overlay_size(*o).0,
        w == overlay_size(*o).1,
        s == scale_of(*o),
        -32768 <= h <= 32767,
        -32768 <= w <= 32767,
        1 <= s <= 255,
    ensures
        b.0 == glyph_base(*o, i as int, j as int).0,
        b.1 == glyph_base(*o, i as int, j as int).1,
        -20000000 <= b.0 <= 20000000,
        -20000000 <= b.1 <= 20000000,
{
    let cr = wrap16(i);
    let cc = wrap16(j);
    let x = o.x as i32;
    let y = o.y as i32;
    proof {
        assert(-8388608 <= cr * s <= 8388352) by (nonlinear_arith)
            requires -32768 <= cr <= 32767, 1 <= s <= 255;
        assert(-8388608 <= cc * s <= 8388352) by (nonlinear_arith)
            requires -32768 <= cc <= 32767, 1 <= s <= 255;
        assert(-16777216 <= (h - 1 - cc) * s <= 16777216) by (nonlinear_arith)
            requires -32768 <= cc <= 32767, -32768 <= h <= 32767, 1 <= s <= 255;
        assert(-16777216 <= (w - 1 - cc) * s <= 16777216) by (nonlinear_arith)
            requires -32768 <= cc <= 32767, -32768 <= w <= 32767, 1 <= s <= 255;
        assert(-16777216 <= (h - 1 - cr) * s <= 16777216) by (nonlinear_arith)
            requires -32768 <= cr <= 32767, -32768 <= h <= 32767, 1 <= s <= 255;
    }
    if o.rotation == 90 {
        (x + cr * s, y + (h - 1 - cc) * s)
    } else if o.rotation == 180 {
        (x + (w - 1 - cc) * s, y + (h - 1 - cr) * s)
    } else if o.rotation == 270 {
        (x + (h - 1 - cr) * s, y + cc * s)
    } else {
        (x + cc * s, y + cr * s)
    }
}

fn overlay_at(prev: TermCell, o: &TextOverlay, c: u16, r: u16, z: u16, sx: u16, sy: u16, vis_w: u16, vis_h: u16) -> (t: TermCell)
    requires
        z >= 1,
        sx + c / z <= u16::MAX,
        sy + r / z <= u16::MAX,
        sx + vis_w <= u16::MAX,
        sy + vis_h <= u16::MAX,
    ensures
        t == overlay_cell(prev, *o, c as int, r as int, z as int, sx as int, sy as int, vis_w as int, vis_h as int),
{
    let n = o.rows.len();
    if n == 0 {
        return prev;
    }
    let h = wrap16(n);
    assert(strings_view(o.rows@)[0] == o.rows@[0]@);
    let w = wrap16(o.rows[0].unicode_len());
    if h == 0 || w == 0 {
        return prev;
    }
    let s: i32 = if o.scale >= 1 { o.scale as i32 } else { 1 };
    let px = sx + c / z;
    let py = sy + r / z;
    let pxi = signed(px);
    let pyi = signed(py);
    let shown = signed(sx) <= pxi && pxi < signed(sx + vis_w) && signed(sy) <= pyi && pyi < signed(sy + vis_h);
    let ghost total = last_cover(*o, n as int, px as int, py as int, sx as int, sy as int, vis_w as int, vis_h as int);
    assert(overlay_draws(*o));
    let mut i: usize = n;
    while i > 0
        invariant
            i <= n,
            n == o.rows@.len(),
            h == overlay_size(*o).0,
            w == overlay_size(*o).1,
            s == scale_of(*o),
            -32768 <= h <= 32767,
            -32768 <= w <= 32767,
            1 <= s <= 255,
            pxi == as_i16(px as int),
            pyi == as_i16(py as int),
            shown == (as_i16(sx as int) <= as_i16(px as int) < as_i16(sx + vis_w) && as_i16(sy as int) <= as_i16(py as int) < as_i16(sy + vis_h)),
            total == last_cover(*o, i as int, px as int, py as int, sx as int, sy as int, vis_w as int, vis_h as int),
            total == last_cover(*o, n as int, px as int, py as int, sx as int, sy as int, vis_w as int, vis_h as int),
            overlay_draws(*o),
            px as int == sx as int + (c as int) / (z as int),
            py as int == sy as int + (r as int) / (z as int),
        decreases i,
    {
        let row = &o.rows[i - 1];
        let len = row.unicode_len();
        let mut j: usize = len;
        let ghost here = row_cover(*o, i - 1, len as int, px as int, py as int, sx as int, sy as int, vis_w as int, vis_h as int);
        while j > 0
            invariant
                0 < i <= n,
                n == o.rows@.len(),
                *row == o.rows@[i - 1],
                j <= len,
                len == row@.len(),
                h == overlay_size(*o).0,
                w == overlay_size(*o).1,
                s == scale_of(*o),
                -32768 <= h <= 32767,
                -32768 <= w <= 32767,
                1 <= s <= 255,
                pxi == as_i16(px as int),
                pyi == as_i16(py as int),
                shown == (as_i16(sx as int) <= as_i16(px as int) < as_i16(sx + vis_w) && as_i16(sy as int) <= as_i16(py as int) < as_i16(sy + vis_h)),
                here == row_cover(*o, i - 1, j as int, px as int, py as int, sx as int, sy as int, vis_w as int, vis_h as int),
                here == row_cover(*o, i - 1, len as int, px as int, py as int, sx as int, sy as int, vis_w as int, vis_h as int),
                total == last_cover(*o, i as int, px as int, py as int, sx as int, sy as int, vis_w as int, vis_h as int),
                total == last_cover(*o, n as int, px as int, py as int, sx as int, sy as int, vis_w as int, vis_h as int),
                overlay_draws(*o),
                px as int == sx as int + (c as int) / (z as int),
                py as int == sy as int + (r as int) / (z as int),
            decreases j,
        {
            let ch = row.get_char(j - 1);
            if ch != ' ' {
                let b = glyph_base_at(o, i - 1, j - 1, h, w, s);
                if shown && 0 <= pxi - b.0 && pxi - b.0 < s && 0 <= pyi - b.1 && pyi - b.1 < s {
                    assert(here == Some(ch));
                    assert(total == Some(ch));
                    return TermCell { ch: ch, fg: if o.color.is_some() { o.color } else { prev.fg }, ..prev };
                }
            }
            j = j - 1;
        }
        assert(here is None);
        i = i - 1;
    }
    prev
}

fn paint_overlay(frame: Vec<Vec<TermCell>>, w: u16, h: u16, o: &TextOverlay, z: u16, sx: u16, sy: u16, vis_w: u16, vis_h: u16) -> (out: Vec<Vec<TermCell>>)
    requires
        shaped(picture(frame@), w as nat, h as nat),
        z >= 1,
        w > 0 ==> sx + (w - 1) / (z as int) <= u16::MAX,
        h > 0 ==> sy + (h - 1) / (z as int) <= u16::MAX,
        sx + vis_w <= u16::MAX,
        sy + vis_h <= u16::MAX,
    ensures
        shaped(picture(out@), w as nat, h as nat),
        picture(out@) == each_cell(picture(frame@), |p: TermCell, c: int, r: int| overlay_cell(p, *o, c, r, z as int, sx as int, sy as int, vis_w as int, vis_h as int)),
{
    let ghost want = each_cell(picture(frame@), |p: TermCell, c: int, r: int| overlay_cell(p, *o, c, r, z as int, sx as int, sy as int, vis_w as int, vis_h as int));
    let mut out: Vec<Vec<TermCell>> = Vec::new();
    let mut r: u16 = 0;
    while r < h
        invariant
            shaped(picture(frame@), w as nat, h as nat),
            z >= 1,
            w > 0 ==> sx + (w - 1) / (z as int) <= u16::MAX,
            h > 0 ==> sy + (h - 1) / (z as int) <= u16::MAX,
            sx + vis_w <= u16::MAX,
            sy + vis_h <= u16::MAX,
            want == each_cell(picture(frame@), |p: TermCell, c: int, r: int| overlay_cell(p, *o, c, r, z as int, sx as int, sy as int, vis_w as int, vis_h as int)),
            r <= h,
            out@.len() == r,
            forall|k: int| 0 <= k < r ==> (#[trigger] out@[k])@ == want[k],
        decreases h - r,
    {
        assert(picture(frame@)[r as int] == frame@[r as int]@);
        let mut row: Vec<TermCell> = Vec::new();
        let mut c: u16 = 0;
        while c < w
            invariant
                shaped(picture(frame@), w as nat, h as nat),
                z >= 1,
                w > 0 ==> sx + (w - 1) / (z as int) <= u16::MAX,
                h > 0 ==> sy + (h - 1) / (z as int) <= u16::MAX,
                sx + vis_w <= u16::MAX,
                sy + vis_h <= u16::MAX,
                want == each_cell(picture(frame@), |p: TermCell, c: int, r: int| overlay_cell(p, *o, c, r, z as int, sx as int, sy as int, vis_w as int, vis_h as int)),
                r < h,
                c <= w,
                frame@[r as int]@.len() == w,
                row@.len() == c,
                forall|k: int| 0 <= k < c ==> #[trigger] row@[k] == want[r as int][k],
            decreases w - c,
        {
            proof {
                assert((c as int) / (z as int) <= (w as int - 1) / (z as int)) by (nonlinear_arith)
                    requires c < w, z >= 1;
                assert((r as int) / (z as int) <= (h as int - 1) / (z as int)) by (nonlinear_arith)
                    requires r < h, z >= 1;
            }
            let prev = frame[r as usize][c as usize];
            row.push(overlay_at(prev, o, c, r, z, sx, sy, vis_w, vis_h));
            c = c + 1;
        }
        assert(row@ =~= want[r as int]);
        out.push(row);
        r = r + 1;
    }
    assert(picture(out@) =~= want);
    out
}

fn paint_overlays(frame: Vec<Vec<TermCell>>, w: u16, h: u16, overlays: &Vec<TextOverlay>, z: u16, sx: u16, sy: u16, vis_w: u16, vis_h: u16) -> (out: Vec<Vec<TermCell>>)
    requires
        shaped(picture(frame@), w as nat, h as nat),
        z >= 1,
        w > 0 ==> sx + (w - 1) / (z as int) <= u16::MAX,
        h > 0 ==> sy + (h - 1) / (z as int) <= u16::MAX,
        sx + vis_w <= u16::MAX,
        sy + vis_h <= u16::MAX,
    ensures
        shaped(picture(out@), w as nat, h as nat),
        picture(out@) == overlays_drawn(picture(frame@), overlays@, overlays@.len() as int, z as int, sx as int, sy as int, vis_w as int, vis_h as int),
{
    let ghost start = picture(frame@);
    let mut cur = frame;
    let mut k: usize = 0;
    while k < overlays.len()
        invariant
            k <= overlays@.len(),
            shaped(picture(cur@), w as nat, h as nat),
            z >= 1,
            w > 0 ==> sx + (w - 1) / (z as int) <= u16::MAX,
            h > 0 ==> sy + (h - 1) / (z as int) <= u16::MAX,
            sx + vis_w <= u16::MAX,
            sy + vis_h <= u16::MAX,
            picture(cur@) == overlays_drawn(start, overlays@, k as int, z as int, sx as int, sy as int, vis_w as int, vis_h as int),
        decreases overlays@.len() - k,
    {
        cur = paint_overlay(cur, w, h, &overlays[k], z, sx, sy, vis_w, vis_h);
        k = k + 1;
    }
    cur
}

/// The columns and rows of canvas cells the grid is drawn between: those
/// showing, and no further than the canvas (its width cut to 16 bits)
/// reaches past the scroll offset.
pub open spec fn grid_extent(shown: int, canvas: nat, scroll: int) -> u16 {
    let left: int = if canvas % 65536 >= scroll { canvas % 65536 - scroll } else { 0 };
    (if shown < left { shown } else { left }) as u16
}

/// The picture of the canvas `g` drawn over `p` (`w` by `h` terminal
/// cells): the canvas cells scrolled by `scroll` at `zoom` cells each; the
/// grid when shown and zoomed in; the polygon's vertices; the selection's
/// dashed outline in `sel_color` (in the order of keys `x + y * (width +
/// 1)`); the text block's in `block_color` (keys `x + y * 20000`); the
/// text overlays in order; and the cursor reversed.
pub open spec fn rendered(
    g: GridModel,
    scroll: (u16, u16),
    zoom: u8,
    show_grid: bool,
    cursor: (u16, u16),
    verts: Seq<(i16, i16)>,
    selection: Option<Seq<(usize, usize)>>,
    block: Option<Seq<(usize, usize)>>,
    overlays: Seq<TextOverlay>,
    p: Seq<Seq<TermCell>>,
    w: u16,
    h: u16,
    sel_color: Color,
    block_color: Color,
) -> Seq<Seq<TermCell>> {
    let z: int = if zoom >= 1 { zoom as int } else { 1 };
    let sx = scroll.0 as int;
    let sy = scroll.1 as int;
    let vis_w = (w as int) / z;
    let vis_h = (h as int) / z;
    let p1 = each_cell(p, |q: TermCell, c: int, r: int| base_cell(q, g, sx + c / z, sy + r / z));
    let p2 = if show_grid && z > 1 {
        let gw = grid_extent(vis_w, g.width, sx);
        let gh = grid_extent(vis_h, g.height, sy);
        each_cell(p1, |q: TermCell, c: int, r: int| grid_cell(q, c, r, z, gw as int, gh as int))
    } else {
        p1
    };
    let p3 = each_cell(p2, |q: TermCell, c: int, r: int| if vertex_covers(verts, c, r, z, sx, sy, vis_w, vis_h) {
        vertex_cell(q, sel_color)
    } else {
        q
    });
    let p4 = match selection {
        Some(pts) => each_cell(p3, |q: TermCell, c: int, r: int| outline_cell(q, sorted_by_key(pts, g.width + 1 as int), c, r, z, sx, sy, vis_w, vis_h, sel_color)),
        None => p3,
    };
    let p5 = match block {
        Some(pts) => each_cell(p4, |q: TermCell, c: int, r: int| outline_cell(q, sorted_by_key(pts, 20000), c, r, z, sx, sy, vis_w, vis_h, block_color)),
        None => p4,
    };
    let p6 = overlays_drawn(p5, overlays, overlays.len() as int, z, sx, sy, vis_w, vis_h);
    if w == 0 || h == 0 {
        p
    } else {
        each_cell(p6, |q: TermCell, c: int, r: int| cursor_cell(q, c, r, z, (cursor.0 as int, cursor.1 as int), sx, sy, vis_w, vis_h))
    }
}

/// Drawing stays within the machine's numbers: the scrolled positions and
/// the outline keys fit, and the overlays' glyphs are placed within 16-bit
/// signed arithmetic.
pub open spec fn render_fits(
    g: GridModel,
    scroll: (u16, u16),
    zoom: u8,
    selection: Option<Seq<(usize, usize)>>,
    block: Option<Seq<(usize, usize)>>,
    overlays: Seq<TextOverlay>,
    w: u16,
    h: u16,
) -> bool {
    let z: int = if zoom >= 1 { zoom as int } else { 1 };
    &&& scroll.0 + (w as int) / z <= u16::MAX
    &&& scroll.1 + (h as int) / z <= u16::MAX
    &&& (w > 0 ==> scroll.0 + (w - 1) / z <= u16::MAX)
    &&& (h > 0 ==> scroll.1 + (h - 1) / z <= u16::MAX)
    &&& (selection matches Some(pts) ==> g.width + 1 <= usize::MAX && keys_fit(pts, g.width + 1 as int))
    &&& (block matches Some(pts) ==> keys_fit(pts, 20000))
    &&& overlays_fit(overlays)
}

/// Draw the canvas over the picture `frame`: see `rendered`.
pub fn render_frame(
    buf: &CanvasBuffer,
    scroll: (u16, u16),
    zoom: u8,
    show_grid: bool,
    cursor: (u16, u16),
    verts: &Vec<(i16, i16)>,
    selection: &Option<Vec<(usize, usize)>>,
    block: &Option<Vec<(usize, usize)>>,
    overlays: &Vec<TextOverlay>,
    frame: Vec<Vec<TermCell>>,
    w: u16,
    h: u16,
    sel_color: Color,
    block_color: Color,
) -> (out: Vec<Vec<TermCell>>)
    requires
        buf@.wf(),
        shaped(picture(frame@), w as nat, h as nat),
        render_fits(
            buf@,
            scroll,
            zoom,
            match selection { Some(v) => Some(v@), None => None },
            match block { Some(v) => Some(v@), None => None },
            overlays@,
            w,
            h,
        ),
    ensures
        picture(out@) == rendered(
            buf@,
            scroll,
            zoom,
            show_grid,
            cursor,
            verts@,
            match selection { Some(v) => Some(v@), None => None },
            match block { Some(v) => Some(v@), None => None },
            overlays@,
            picture(frame@),
            w,
            h,
            sel_color,
            block_color,
        ),
{
    if w == 0 || h == 0 {
        return frame;
    }
    let z: u16 = if zoom >= 1 { zoom as u16 } else { 1 };
    let (sx, sy) = scroll;
    let vis_w = w / z;
    let vis_h = h / z;
    let ghost zi = z as int;
    let ghost sxi = sx as int;
    let ghost syi = sy as int;
    let ghost vw = vis_w as int;
    let ghost vh = vis_h as int;
    let ghost g = buf@;
    let ghost selv = match selection { Some(v) => Some(v@), None => None::<Seq<(usize, usize)>> };
    let ghost blockv = match block { Some(v) => Some(v@), None => None::<Seq<(usize, usize)>> };
    let no_points: Vec<(usize, usize)> = Vec::new();
    let mut cur = paint_base(&frame, w, h, buf, sx, sy, z);
    let ghost p1 = each_cell(picture(frame@), |q: TermCell, c: int, r: int| base_cell(q, g, sxi + c / zi, syi + r / zi));
    assert(picture(cur@) == p1);
    assert(shaped(p1, w as nat, h as nat));
    let ghost p2 = if show_grid && zi > 1 {
        let gw = grid_extent(vw, g.width, sxi);
        let gh = grid_extent(vh, g.height, syi);
        each_cell(p1, |q: TermCell, c: int, r: int| grid_cell(q, c, r, zi, gw as int, gh as int))
    } else {
        p1
    };
    if show_grid && z > 1 {
        let bw = (buf.width() % 65536) as u16;
        let bh = (buf.height() % 65536) as u16;
        let lw: u16 = if bw >= sx { bw - sx } else { 0 };
        let lh: u16 = if bh >= sy { bh - sy } else { 0 };
        let gw = if vis_w < lw { vis_w } else { lw };
        let gh = if vis_h < lh { vis_h } else { lh };
        assert(gw == grid_extent(vw, g.width, sxi));
        assert(gh == grid_extent(vh, g.height, syi));
        cur = paint_cells(cur, w, h, &CellPass::Grid(gw, gh), z, sx, sy, vis_w, vis_h, verts.as_slice(), &no_points);
        assert(picture(cur@) =~~= p2);
    }
    assert(picture(cur@) == p2);
    assert(shaped(p2, w as nat, h as nat));
    let ghost p3 = each_cell(p2, |q: TermCell, c: int, r: int| if vertex_covers(verts@, c, r, zi, sxi, syi, vw, vh) {
        vertex_cell(q, sel_color)
    } else {
        q
    });
    cur = paint_cells(cur, w, h, &CellPass::Vertices(sel_color), z, sx, sy, vis_w, vis_h, verts.as_slice(), &no_points);
    assert(picture(cur@) =~~= p3);
    assert(shaped(p3, w as nat, h as nat));
    let ghost p4 = match selv {
        Some(pts) => each_cell(p3, |q: TermCell, c: int, r: int| outline_cell(q, sorted_by_key(pts, g.width + 1 as int), c, r, zi, sxi, syi, vw, vh, sel_color)),
        None => p3,
    };
    match selection {
        Some(pts) => {
            let m = buf.width() + 1;
            let sorted = sort_points(pts, m);
            cur = paint_cells(cur, w, h, &CellPass::Outline(sel_color), z, sx, sy, vis_w, vis_h, verts.as_slice(), &sorted);
            assert(picture(cur@) =~~= p4);
        },
        None => {},
    }
    assert(picture(cur@) == p4);
    assert(shaped(p4, w as nat, h as nat));
    let ghost p5 = match blockv {
        Some(pts) => each_cell(p4, |q: TermCell, c: int, r: int| outline_cell(q, sorted_by_key(pts, 20000), c, r, zi, sxi, syi, vw, vh, block_color)),
        None => p4,
    };
    match block {
        Some(pts) => {
            let sorted = sort_points(pts, 20000);
            cur = paint_cells(cur, w, h, &CellPass::Outline(block_color), z, sx, sy, vis_w, vis_h, verts.as_slice(), &sorted);
            assert(picture(cur@) =~~= p5);
        },
        None => {},
    }
    assert(picture(cur@) == p5);
    assert(shaped(p5, w as nat, h as nat));
    cur = paint_overlays(cur, w, h, overlays, z, sx, sy, vis_w, vis_h);
    let ghost p6 = overlays_drawn(p5, overlays@, overlays@.len() as int, zi, sxi, syi, vw, vh);
    assert(picture(cur@) == p6);
    cur = paint_cells(cur, w, h, &CellPass::Cursor(cursor), z, sx, sy, vis_w, vis_h, verts.as_slice(), &no_points);
    assert(picture(cur@) =~~= each_cell(p6, |q: TermCell, c: int, r: int| cursor_cell(q, c, r, zi, (cursor.0 as int, cursor.1 as int), sxi, syi, vw, vh)));
    cur
}


/// A canvas cell drawn over a terminal cell shows its glyph, and its
/// foreground and background colours wherever it has them; only a missing
/// colour lets the terminal cell's own colour through.
pub proof fn law_canvas_cell_colours_shown(prev: TermCell, g: GridModel, bx: int, by: int)
    requires
        g.in_bounds(bx, by),
    ensures
        base_cell(prev, g, bx, by).ch == g.cell(bx, by).ch,
        g.cell(bx, by).bg is Some ==> base_cell(prev, g, bx, by).bg == g.cell(bx, by).bg,
        g.cell(bx, by).fg is Some ==> base_cell(prev, g, bx, by).fg == g.cell(bx, by).fg,
        g.cell(bx, by).bg is None ==> base_cell(prev, g, bx, by).bg == prev.bg,
        g.cell(bx, by).fg is None ==> base_cell(prev, g, bx, by).fg == prev.fg,
{
}

/// Drawing the canvas with nothing on top of it (no grid lines, vertices,
/// outlines or text overlays): the terminal cell at (c, r) shows the glyph
/// of the canvas cell it falls on, and that cell's background and
/// foreground colours where it has them.
pub proof fn law_rendered_canvas_colours(
    g: GridModel,
    scroll: (u16, u16),
    zoom: u8,
    cursor: (u16, u16),
    p: Seq<Seq<TermCell>>,
    w: u16,
    h: u16,
    sel_color: Color,
    block_color: Color,
    c: int,
    r: int,
)
    requires
        shaped(p, w as nat, h as nat),
        0 <= c < w,
        0 <= r < h,
        ({
            let z: int = if zoom >= 1 { zoom as int } else { 1 };
            g.in_bounds(scroll.0 + c / z, scroll.1 + r / z)
        }),
    ensures
        ({
            let z: int = if zoom >= 1 { zoom as int } else { 1 };
            let cell = g.cell(scroll.0 + c / z, scroll.1 + r / z);
            let shown = rendered(g, scroll, zoom, false, cursor, seq![], None, None, seq![], p, w, h, sel_color, block_color)[r][c];
            &&& shown.ch == cell.ch
            &&& cell.bg is Some ==> shown.bg == cell.bg
            &&& cell.fg is Some ==> shown.fg == cell.fg
        }),
{
    let z: int = if zoom >= 1 { zoom as int } else { 1 };
    let sx = scroll.0 as int;
    let sy = scroll.1 as int;
    let p1 = each_cell(p, |q: TermCell, cc: int, rr: int| base_cell(q, g, sx + cc / z, sy + rr / z));
    assert(p1[r][c] == base_cell(p[r][c], g, sx + c / z, sy + r / z));
    let verts: Seq<(i16, i16)> = seq![];
    assert(!vertex_covers(verts, c, r, z, sx, sy, (w as int) / z, (h as int) / z));
}
} // verus!
