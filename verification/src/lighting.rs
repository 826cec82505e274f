use vstd::prelude::*;

verus! {

/// A surface normal with each component scaled from [-1, 1] to [-127, 127].
#[derive(Debug, Clone, Copy, PartialEq, Eq, Structural)]
pub struct Normal3(pub i8, pub i8, pub i8);

/// The normal facing the viewer.
pub open spec fn flat_normal() -> Normal3 {
    Normal3(0, 0, 127)
}

/// A grid of normals, one per canvas cell.
pub struct NormalMap {
    pub cells: Vec<Vec<Normal3>>,
    pub width: u16,
    pub height: u16,
}

impl NormalMap {
    /// `height` rows of `width` normals each.
    pub open spec fn wf(&self) -> bool {
        &&& self.cells@.len() == self.height
        &&& forall|y: int| 0 <= y < self.height ==> (#[trigger] self.cells@[y])@.len() == self.width
    }

    /// The normal at (x, y).
    pub open spec fn at(&self, x: int, y: int) -> Normal3 {
        self.cells@[y]@[x]
    }

    /// A `width` x `height` map of normals facing the viewer.
    pub fn new(width: u16, height: u16) -> (m: NormalMap)
        ensures
            m.wf(),
            m.width == width,
            m.height == height,
            forall|x: int, y: int| 0 <= x < width && 0 <= y < height ==> m.at(x, y) == flat_normal(),
    {
        let mut cells: Vec<Vec<Normal3>> = Vec::new();
        let mut y: u16 = 0;
        while y < height
            invariant
                y <= height,
                cells@.len() == y,
                forall|j: int| 0 <= j < y ==> (#[trigger] cells@[j])@.len() == width,
                forall|j: int, i: int| 0 <= j < y && 0 <= i < width ==> (#[trigger] cells@[j]@[i]) == flat_normal(),
            decreases height - y,
        {
            let mut row: Vec<Normal3> = Vec::new();
            let mut x: u16 = 0;
            while x < width
                invariant
                    x <= width,
                    row@.len() == x,
                    forall|i: int| 0 <= i < x ==> (#[trigger] row@[i]) == flat_normal(),
                decreases width - x,
            {
                row.push(Normal3(0, 0, 127));
                x = x + 1;
            }
            cells.push(row);
            y = y + 1;
        }
        NormalMap { cells, width, height }
    }

    /// The normal at (x, y), or `None` outside the map.
    pub fn get(&self, x: u16, y: u16) -> (r: Option<&Normal3>)
        requires
            self.wf(),
        ensures
            x < self.width && y < self.height ==> r == Some(&self.at(x as int, y as int)),
            !(x < self.width && y < self.height) ==> r is None,
    {
        if x < self.width && y < self.height {
            Some(&self.cells[y as usize][x as usize])
        } else {
            None
        }
    }

    /// The normal at (x, y) to change in place, or `None` outside the map.
    pub fn get_mut(&mut self, x: u16, y: u16) -> (r: Option<&mut Normal3>)
        requires
            old(self).wf(),
        ensures
            !(x < old(self).width && y < old(self).height) ==> r is None && *final(self) == *old(self),
            x < old(self).width && y < old(self).height ==> (r matches Some(n) && {
                &&& *n == old(self).at(x as int, y as int)
                &&& final(self).wf()
                &&& final(self).width == old(self).width
                &&& final(self).height == old(self).height
                &&& forall|i: int, j: int| 0 <= i < old(self).width && 0 <= j < old(self).height ==> #[trigger] final(self).at(i, j) == (if i == x && j == y {
                    *final(n)
                } else {
                    old(self).at(i, j)
                })
            }),
    {
        if x < self.width && y < self.height {
            Some(&mut self.cells[y as usize][x as usize])
        } else {
            None
        }
    }

    /// Overwrite the normal at (x, y); outside the map nothing changes.
    pub fn set(&mut self, x: u16, y: u16, normal: Normal3)
        requires
            old(self).wf(),
        ensures
            final(self).wf(),
            final(self).width == old(self).width,
            final(self).height == old(self).height,
            forall|i: int, j: int| 0 <= i < old(self).width && 0 <= j < old(self).height ==> #[trigger] final(self).at(i, j) == (if i == x && j == y {
                normal
            } else {
                old(self).at(i, j)
            }),
    {
        if x < self.width && y < self.height {
            self.cells[y as usize].set(x as usize, normal);
        }
        proof {
            assert forall|j: int| 0 <= j < self.height implies (#[trigger] self.cells@[j])@.len() == self.width by {
                if j != y {
                    assert(self.cells@[j] == old(self).cells@[j]);
                }
            }
        }
    }

    pub fn width(&self) -> (w: u16)
        ensures
            w == self.width,
    {
        self.width
    }

    pub fn height(&self) -> (h: u16)
        ensures
            h == self.height,
    {
        self.height
    }
}

/// A 24-bit colour.
#[derive(Debug, Clone, Copy, PartialEq, Eq, Structural)]
pub struct Rgb(pub u8, pub u8, pub u8);

/// One step of a lighting ramp: the colours and glyph for a luminance.
#[derive(Debug, Clone, Copy, PartialEq, Eq)]
pub struct LutEntry {
    pub fg_color: (u8, u8, u8),
    pub bg_color: Option<(u8, u8, u8)>,
    pub ch: char,
}

/// The number of steps of each swatch's ramp.
pub const ENTRIES_PER_SWATCH: usize = 256;

/// Lighting ramps from shadow to lit colour, one block of entries per
/// swatch.
pub struct LightingLut {
    pub entries: Vec<LutEntry>,
    pub swatch_count: usize,
}

impl LightingLut {
    /// One ramp of `ENTRIES_PER_SWATCH` entries per swatch, and at least
    /// one swatch.
    pub open spec fn wf(&self) -> bool {
        &&& self.swatch_count >= 1
        &&& self.entries@.len() == self.swatch_count * ENTRIES_PER_SWATCH
    }

    /// The entry at step `level` of the ramp of swatch `swatch_idx`, both
    /// cut to the last one there is.
    pub fn entry_at(&self, swatch_idx: usize, level: usize) -> (r: &LutEntry)
        requires
            self.wf(),
        ensures
            *r == self.entries@[(if swatch_idx < self.swatch_count { swatch_idx as int } else { self.swatch_count - 1 })
                * ENTRIES_PER_SWATCH + (if level < ENTRIES_PER_SWATCH { level as int } else { ENTRIES_PER_SWATCH - 1 })],
    {
        let s = if swatch_idx < self.swatch_count { swatch_idx } else { self.swatch_count - 1 };
        let l = if level < ENTRIES_PER_SWATCH { level } else { ENTRIES_PER_SWATCH - 1 };
        let total = self.entries.len();
        proof {
            assert(s * ENTRIES_PER_SWATCH + l < total) by (nonlinear_arith)
                requires
                    s < self.swatch_count,
                    l < ENTRIES_PER_SWATCH,
                    total == self.swatch_count * ENTRIES_PER_SWATCH,
            ;
        }
        &self.entries[s * ENTRIES_PER_SWATCH + l]
    }

    /// The number of swatches the ramps were built for.
    pub fn swatch_count(&self) -> (n: usize)
        ensures
            n == self.swatch_count,
    {
        self.swatch_count
    }
}

/// The kinds of light a scene holds.
#[derive(Debug, Clone, Copy, PartialEq, Eq, Structural)]
pub enum LightKind {
    Ambient,
    Directional,
    Point,
}


/// Index `i` of a row or column of `limit` cells, reflected back inside at
/// either end: -1 gives 0 and `limit` gives `limit - 1`.
pub open spec fn mirrored(i: int, limit: int) -> int {
    if i < 0 {
        -i - 1
    } else if i >= limit {
        2 * limit - i - 1
    } else {
        i
    }
}

/// The reflected index of `i` (see `mirrored`), for `i` at most `limit`
/// cells outside either end.
pub fn mirror_idx(i: i32, limit: usize) -> (r: usize)
    requires
        limit <= i32::MAX / 2,
        -(limit as int) <= i < 2 * limit,
    ensures
        r == mirrored(i as int, limit as int),
        r < limit,
{
    let l = limit as i32;
    if i < 0 {
        (-i - 1) as usize
    } else if i >= l {
        (2 * l - i - 1) as usize
    } else {
        i as usize
    }
}
} // verus!
