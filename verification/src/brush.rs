use vstd::prelude::*;

use crate::text::{push_char, strings_view};

verus! {

/// Shape of the drawing brush.
#[derive(Debug, Clone, Copy, PartialEq, Eq, Structural)]
pub enum BrushShape {
    Square,
    Circle,
    SprayPaint,
    Custom,
}

impl BrushShape {
    /// The shape that follows `self` in the cycle Square, Circle, Spray, Custom.
    pub open spec fn spec_cycle(self) -> BrushShape {
        match self {
            BrushShape::Square => BrushShape::Circle,
            BrushShape::Circle => BrushShape::SprayPaint,
            BrushShape::SprayPaint => BrushShape::Custom,
            BrushShape::Custom => BrushShape::Square,
        }
    }

    pub open spec fn spec_name(self) -> Seq<char> {
        match self {
            BrushShape::Square => "Square"@,
            BrushShape::Circle => "Circle"@,
            BrushShape::SprayPaint => "Spray"@,
            BrushShape::Custom => "Custom"@,
        }
    }

    pub fn cycle(&self) -> (r: BrushShape)
        ensures
            r == self.spec_cycle(),
    {
        match self {
            BrushShape::Square => BrushShape::Circle,
            BrushShape::Circle => BrushShape::SprayPaint,
            BrushShape::SprayPaint => BrushShape::Custom,
            BrushShape::Custom => BrushShape::Square,
        }
    }

    /// The label shown for the shape.
    pub fn name(&self) -> (r: &'static str)
        ensures
            r@ == self.spec_name(),
    {
        match self {
            BrushShape::Square => "Square",
            BrushShape::Circle => "Circle",
            BrushShape::SprayPaint => "Spray",
            BrushShape::Custom => "Custom",
        }
    }

    /// Every shape, in cycle order.
    pub fn all() -> (r: Vec<BrushShape>)
        ensures
            r@ == seq![
                BrushShape::Square,
                BrushShape::Circle,
                BrushShape::SprayPaint,
                BrushShape::Custom,
            ],
    {
        let mut v = Vec::new();
        v.push(BrushShape::Square);
        v.push(BrushShape::Circle);
        v.push(BrushShape::SprayPaint);
        v.push(BrushShape::Custom);
        v
    }
}

/// Smallest brush size.
pub const MIN_SIZE: u8 = 1;

/// Largest brush size.
pub const MAX_SIZE: u8 = 20;

/// Smallest spray density (percent).
pub const MIN_DENSITY: u8 = 1;

/// Largest spray density (percent).
pub const MAX_DENSITY: u8 = 100;

/// Side of the square grid used by the mini preview.
pub const MINI_GRID: usize = 5;

/// `n` clamped into `[lo, hi]`.
pub open spec fn clamp_u8(n: u8, lo: u8, hi: u8) -> u8 {
    if n < lo {
        lo
    } else if n > hi {
        hi
    } else {
        n
    }
}

/// Whether the preview cell (x, y) of a `size` x `size` circle brush is
/// painted: its centre lies within the circle inscribed in the brush
/// (doubling every coordinate keeps the test exact in integers). At size 3
/// that circle reaches every cell, as the square does; there its corners
/// are left out, so that the two shapes keep different previews.
pub open spec fn circle_hit(size: int, x: int, y: int) -> bool {
    let dx = 2 * x - size + 1;
    let dy = 2 * y - size + 1;
    dx * dx + dy * dy <= size * size && !(size == 3 && dx * dx + dy * dy == 8)
}

/// Whether the preview cell (x, y) of a spray brush is painted: a fixed
/// hash of the position, taken modulo 100, falls below the density.
pub open spec fn spray_hit(density: int, x: int, y: int) -> bool {
    (x * 7 + y * 31 + 42) % 100 < density
}

/// The character at (x, y) of the preview of a `size` x `size` brush.
pub open spec fn preview_cell(shape: BrushShape, size: int, density: int, x: int, y: int) -> char {
    match shape {
        BrushShape::Square => '@',
        BrushShape::Circle => if circle_hit(size, x, y) {
            '@'
        } else {
            ' '
        },
        BrushShape::SprayPaint => if spray_hit(density, x, y) {
            '@'
        } else {
            ' '
        },
        BrushShape::Custom => if x == size / 2 && y == size / 2 {
            '+'
        } else {
            ' '
        },
    }
}

/// The preview grid of a brush of side `size`: one empty row for size 0,
/// otherwise `size` rows of `size` characters.
pub open spec fn preview_grid(shape: BrushShape, size: nat, density: int) -> Seq<Seq<char>> {
    if size == 0 {
        seq![Seq::<char>::empty()]
    } else {
        Seq::new(
            size,
            |y: int| Seq::new(size, |x: int| preview_cell(shape, size as int, density, x, y)),
        )
    }
}

/// The mini-preview character at row `r`, column `c` of the 5x5 grid: the
/// full preview centred on the grid (cropped when larger, padded with
/// spaces when smaller), painted cells drawn with the brush character.
pub open spec fn mini_cell(
    shape: BrushShape,
    size: int,
    density: int,
    ch: char,
    r: int,
    c: int,
) -> char {
    let g = MINI_GRID as int;
    if size >= g {
        let off = (size - g) / 2;
        if preview_cell(shape, size, density, c + off, r + off) != ' ' {
            ch
        } else {
            ' '
        }
    } else {
        let off = (g - size) / 2;
        if off <= r < off + size && off <= c < off + size && preview_cell(
            shape,
            size,
            density,
            c - off,
            r - off,
        ) != ' ' {
            ch
        } else {
            ' '
        }
    }
}

/// The whole 5x5 mini preview.
pub open spec fn mini_grid(shape: BrushShape, size: int, density: int, ch: char) -> Seq<Seq<char>> {
    Seq::new(
        MINI_GRID as nat,
        |r: int| Seq::new(MINI_GRID as nat, |c: int| mini_cell(shape, size, density, ch, r, c)),
    )
}

/// Brush settings: shape, size, drawing character and spray density.
#[derive(Debug, Clone)]
pub struct BrushState {
    pub shape: BrushShape,
    pub size: u8,
    pub ch: char,
    pub density: u8,
}

impl BrushState {
    /// Square brush of size 3 drawing a full block at density 35.
    pub fn new() -> (b: BrushState)
        ensures
            b.shape == BrushShape::Square,
            b.size == 3,
            b.ch == '\u{2588}',
            b.density == 35,
    {
        BrushState { shape: BrushShape::Square, size: 3, ch: '\u{2588}', density: 35 }
    }

    pub fn set_size(&mut self, n: u8)
        ensures
            final(self).size == clamp_u8(n, MIN_SIZE, MAX_SIZE),
            final(self).shape == old(self).shape,
            final(self).ch == old(self).ch,
            final(self).density == old(self).density,
    {
        self.size = if n < MIN_SIZE {
            MIN_SIZE
        } else if n > MAX_SIZE {
            MAX_SIZE
        } else {
            n
        };
    }

    pub fn size_up(&mut self)
        ensures
            final(self).size == (if old(self).size < MAX_SIZE {
                (old(self).size + 1) as u8
            } else {
                old(self).size
            }),
            final(self).shape == old(self).shape,
            final(self).ch == old(self).ch,
            final(self).density == old(self).density,
    {
        if self.size < MAX_SIZE {
            self.size = self.size + 1;
        }
    }

    pub fn size_down(&mut self)
        ensures
            final(self).size == (if old(self).size > MIN_SIZE {
                (old(self).size - 1) as u8
            } else {
                old(self).size
            }),
            final(self).shape == old(self).shape,
            final(self).ch == old(self).ch,
            final(self).density == old(self).density,
    {
        if self.size > MIN_SIZE {
            self.size = self.size - 1;
        }
    }

    pub fn cycle_shape(&mut self)
        ensures
            final(self).shape == old(self).shape.spec_cycle(),
            final(self).size == old(self).size,
            final(self).ch == old(self).ch,
            final(self).density == old(self).density,
    {
        self.shape = self.shape.cycle();
    }

    pub fn set_density(&mut self, n: u8)
        ensures
            final(self).density == clamp_u8(n, MIN_DENSITY, MAX_DENSITY),
            final(self).shape == old(self).shape,
            final(self).size == old(self).size,
            final(self).ch == old(self).ch,
    {
        self.density = if n < MIN_DENSITY {
            MIN_DENSITY
        } else if n > MAX_DENSITY {
            MAX_DENSITY
        } else {
            n
        };
    }

    pub fn density_up(&mut self)
        ensures
            final(self).density == (if old(self).density < MAX_DENSITY {
                (old(self).density + 1) as u8
            } else {
                old(self).density
            }),
            final(self).shape == old(self).shape,
            final(self).size == old(self).size,
            final(self).ch == old(self).ch,
    {
        if self.density < MAX_DENSITY {
            self.density = self.density + 1;
        }
    }

    pub fn density_down(&mut self)
        ensures
            final(self).density == (if old(self).density > MIN_DENSITY {
                (old(self).density - 1) as u8
            } else {
                old(self).density
            }),
            final(self).shape == old(self).shape,
            final(self).size == old(self).size,
            final(self).ch == old(self).ch,
    {
        if self.density > MIN_DENSITY {
            self.density = self.density - 1;
        }
    }

    /// The preview of the brush with its side limited to `max_size`.
    pub fn render_preview(&self, max_size: u8) -> (r: Vec<String>)
        ensures
            strings_view(r@) == preview_grid(
                self.shape,
                (if self.size < max_size {
                    self.size
                } else {
                    max_size
                }) as nat,
                self.density as int,
            ),
    {
        let s: usize = if self.size < max_size {
            self.size as usize
        } else {
            max_size as usize
        };
        let r = match self.shape {
            BrushShape::Square => render_square_preview(s),
            BrushShape::Circle => render_circle_preview(s),
            BrushShape::SprayPaint => render_spray_preview(s, self.density),
            BrushShape::Custom => render_custom_preview(s),
        };
        proof {
            if self.shape != BrushShape::SprayPaint {
                lemma_grid_density_irrelevant(self.shape, s as nat, self.density as int);
            }
        }
        r
    }

    /// The 5x5 preview drawn with the brush's own character.
    pub fn render_mini_preview(&self) -> (r: Vec<String>)
        ensures
            strings_view(r@) == mini_grid(
                self.shape,
                self.size as int,
                self.density as int,
                self.ch,
            ),
    {
        let size = self.size as usize;
        let mut rows: Vec<String> = Vec::new();
        let mut r: usize = 0;
        while r < MINI_GRID
            invariant
                r <= MINI_GRID,
                size == self.size,
                rows@.len() == r,
                forall|k: int| 0 <= k < r ==> (#[trigger] rows@[k])@ == mini_grid(
                    self.shape,
                    size as int,
                    self.density as int,
                    self.ch,
                )[k],
            decreases MINI_GRID - r,
        {
            let mut line = String::new();
            let mut c: usize = 0;
            while c < MINI_GRID
                invariant
                    c <= MINI_GRID,
                    r < MINI_GRID,
                    size == self.size,
                    line@ == Seq::new(
                        c as nat,
                        |k: int|
                            mini_cell(
                                self.shape,
                                size as int,
                                self.density as int,
                                self.ch,
                                r as int,
                                k,
                            ),
                    ),
                decreases MINI_GRID - c,
            {
                let painted = if size >= MINI_GRID {
                    let off = (size - MINI_GRID) / 2;
                    preview_char(self.shape, size, self.density, c + off, r + off) != ' '
                } else {
                    let off = (MINI_GRID - size) / 2;
                    off <= r && r < off + size && off <= c && c < off + size && preview_char(
                        self.shape,
                        size,
                        self.density,
                        c - off,
                        r - off,
                    ) != ' '
                };
                push_char(&mut line, if painted { self.ch } else { ' ' });
                c = c + 1;
                assert(line@ =~= Seq::new(
                    c as nat,
                    |k: int|
                        mini_cell(
                            self.shape,
                            size as int,
                            self.density as int,
                            self.ch,
                            r as int,
                            k,
                        ),
                ));
            }
            assert(line@ =~= mini_grid(self.shape, size as int, self.density as int, self.ch)[r as int]);
            rows.push(line);
            r = r + 1;
        }
        assert(strings_view(rows@) =~= mini_grid(
            self.shape,
            self.size as int,
            self.density as int,
            self.ch,
        ));
        rows
    }
}

impl Default for BrushState {
    fn default() -> (b: BrushState)
        ensures
            b.shape == BrushShape::Square,
            b.size == 3,
            b.ch == '\u{2588}',
            b.density == 35,
    {
        BrushState::new()
    }
}

/// The preview character at (x, y) of a brush of side `size`.
fn preview_char(shape: BrushShape, size: usize, density: u8, x: usize, y: usize) -> (c: char)
    requires
        size <= 255,
        x < 512,
        y < 512,
    ensures
        c == preview_cell(shape, size as int, density as int, x as int, y as int),
{
    match shape {
        BrushShape::Square => '@',
        BrushShape::Circle => {
            if circle_contains(size, x, y) {
                '@'
            } else {
                ' '
            }
        },
        BrushShape::SprayPaint => {
            let hash: u64 = (x as u64) * 7 + (y as u64) * 31 + 42;
            if hash % 100 < density as u64 {
                '@'
            } else {
                ' '
            }
        },
        BrushShape::Custom => {
            if x == size / 2 && y == size / 2 {
                '+'
            } else {
                ' '
            }
        },
    }
}

fn circle_contains(size: usize, x: usize, y: usize) -> (b: bool)
    requires
        size <= 255,
        x < 512,
        y < 512,
    ensures
        b == circle_hit(size as int, x as int, y as int),
{
    let dx: i64 = 2 * (x as i64) - (size as i64) + 1;
    let dy: i64 = 2 * (y as i64) - (size as i64) + 1;
    assert(-300 <= dx <= 1100 && -300 <= dy <= 1100);
    assert(dx * dx <= 1210000 && dy * dy <= 1210000) by (nonlinear_arith)
        requires
            -300 <= dx <= 1100,
            -300 <= dy <= 1100,
    ;
    assert(0 <= dx * dx && 0 <= dy * dy) by (nonlinear_arith);
    let r: i64 = size as i64;
    assert(0 <= r <= 255);
    assert(0 <= r * r <= 65025) by (nonlinear_arith)
        requires
            0 <= r <= 255,
    ;
    let d = dx * dx + dy * dy;
    d <= r * r && !(size == 3 && d == 8)
}

/// The preview rows of a brush of side `size`.
fn render_preview_grid(shape: BrushShape, size: usize, density: u8) -> (r: Vec<String>)
    requires
        size <= 255,
    ensures
        strings_view(r@) == preview_grid(shape, size as nat, density as int),
{
    let mut rows: Vec<String> = Vec::new();
    if size == 0 {
        rows.push(String::new());
        assert(strings_view(rows@) =~= preview_grid(shape, size as nat, density as int));
        return rows;
    }
    let mut y: usize = 0;
    while y < size
        invariant
            0 < size <= 255,
            y <= size,
            rows@.len() == y,
            forall|k: int| 0 <= k < y ==> (#[trigger] rows@[k])@ == preview_grid(
                shape,
                size as nat,
                density as int,
            )[k],
        decreases size - y,
    {
        let mut line = String::new();
        let mut x: usize = 0;
        while x < size
            invariant
                0 < size <= 255,
                x <= size,
                y < size,
                line@ == Seq::new(
                    x as nat,
                    |k: int| preview_cell(shape, size as int, density as int, k, y as int),
                ),
            decreases size - x,
        {
            push_char(&mut line, preview_char(shape, size, density, x, y));
            x = x + 1;
            assert(line@ =~= Seq::new(
                x as nat,
                |k: int| preview_cell(shape, size as int, density as int, k, y as int),
            ));
        }
        assert(line@ =~= preview_grid(shape, size as nat, density as int)[y as int]);
        rows.push(line);
        y = y + 1;
    }
    assert(strings_view(rows@) =~= preview_grid(shape, size as nat, density as int));
    rows
}

/// Only the spray brush depends on the density.
proof fn lemma_grid_density_irrelevant(shape: BrushShape, size: nat, density: int)
    requires
        shape != BrushShape::SprayPaint,
    ensures
        preview_grid(shape, size, density) == preview_grid(shape, size, 0),
{
    if size > 0 {
        assert forall|y: int| 0 <= y < size implies #[trigger] preview_grid(shape, size, density)[y]
            == preview_grid(shape, size, 0)[y] by {
            assert(preview_grid(shape, size, density)[y] =~= preview_grid(shape, size, 0)[y]);
        }
        assert(preview_grid(shape, size, density) =~= preview_grid(shape, size, 0));
    }
}

/// The preview of a square brush.
fn render_square_preview(size: usize) -> (r: Vec<String>)
    requires
        size <= 255,
    ensures
        strings_view(r@) == preview_grid(BrushShape::Square, size as nat, 0),
{
    render_preview_grid(BrushShape::Square, size, 0)
}

/// The preview of a circular brush.
fn render_circle_preview(size: usize) -> (r: Vec<String>)
    requires
        size <= 255,
    ensures
        strings_view(r@) == preview_grid(BrushShape::Circle, size as nat, 0),
{
    render_preview_grid(BrushShape::Circle, size, 0)
}

/// The preview of a spray brush with the given density.
fn render_spray_preview(size: usize, density: u8) -> (r: Vec<String>)
    requires
        size <= 255,
    ensures
        strings_view(r@) == preview_grid(BrushShape::SprayPaint, size as nat, density as int),
{
    render_preview_grid(BrushShape::SprayPaint, size, density)
}

/// The preview of a custom brush: a single cross at the centre.
fn render_custom_preview(size: usize) -> (r: Vec<String>)
    requires
        size <= 255,
    ensures
        strings_view(r@) == preview_grid(BrushShape::Custom, size as nat, 0),
{
    render_preview_grid(BrushShape::Custom, size, 0)
}


/// Cycling the brush shape four times comes back to the start, passing
/// through every shape once.
pub proof fn law_brush_shape_cycle(s: BrushShape)
    ensures
        s.spec_cycle().spec_cycle().spec_cycle().spec_cycle() == s,
        s.spec_cycle() != s,
        s.spec_cycle().spec_cycle() != s,
        s.spec_cycle().spec_cycle().spec_cycle() != s,
{
}


/// The mini preview is always a 5x5 grid, whatever the size, shape and
/// density, drawn only with the brush character and spaces.
pub proof fn law_mini_preview_shape(shape: BrushShape, size: int, density: int, ch: char)
    ensures
        mini_grid(shape, size, density, ch).len() == MINI_GRID,
        forall|r: int| 0 <= r < MINI_GRID ==> (#[trigger] mini_grid(shape, size, density, ch)[r]).len() == MINI_GRID,
        forall|r: int, c: int| 0 <= r < MINI_GRID && 0 <= c < MINI_GRID ==> {
            let x = #[trigger] mini_grid(shape, size, density, ch)[r][c];
            x == ch || x == ' '
        },
{
}

/// Growing, shrinking or setting the brush size keeps it between the
/// smallest and the largest size.
pub proof fn law_size_stays_in_range(size: u8, n: u8)
    requires
        MIN_SIZE <= size <= MAX_SIZE,
    ensures
        MIN_SIZE <= (if size < MAX_SIZE { (size + 1) as u8 } else { size }) <= MAX_SIZE,
        MIN_SIZE <= (if size > MIN_SIZE { (size - 1) as u8 } else { size }) <= MAX_SIZE,
        MIN_SIZE <= clamp_u8(n, MIN_SIZE, MAX_SIZE) <= MAX_SIZE,
{
}

} // verus!
