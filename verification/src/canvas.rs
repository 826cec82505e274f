use vstd::prelude::*;

use crate::canvas_view::{picture, render_fits, render_frame, rendered, shaped, TermCell};

use crate::keys::KeyCode;

verus! {

/// A terminal colour: the named palette entries, a 256-colour index or a
/// 24-bit RGB triple.
#[derive(Debug, Clone, Copy, PartialEq, Eq, Structural)]
pub enum Color {
    Reset,
    Black,
    Red,
    Green,
    Yellow,
    Blue,
    Magenta,
    Cyan,
    Gray,
    DarkGray,
    LightRed,
    LightGreen,
    LightYellow,
    LightBlue,
    LightMagenta,
    LightCyan,
    White,
    Rgb(u8, u8, u8),
    Indexed(u8),
}

/// One character cell of a canvas: glyph, optional colours and an optional
/// height sample used by the lighting pass.
#[derive(Debug, Clone, Copy, PartialEq, Eq, Structural)]
pub struct CanvasCell {
    pub ch: char,
    pub fg: Option<Color>,
    pub bg: Option<Color>,
    pub height: Option<u8>,
}

/// The empty cell: a space with no colours and no height.
pub open spec fn blank_cell() -> CanvasCell {
    CanvasCell { ch: ' ', fg: None, bg: None, height: None }
}

impl CanvasCell {
    /// A cell is empty when it shows a space and carries no colour.
    pub open spec fn is_empty_spec(self) -> bool {
        self.ch == ' ' && self.fg.is_none() && self.bg.is_none()
    }

    pub fn blank() -> (c: CanvasCell)
        ensures
            c == blank_cell(),
    {
        CanvasCell { ch: ' ', fg: None, bg: None, height: None }
    }
}

impl Default for CanvasCell {
    fn default() -> (c: CanvasCell)
        ensures
            c == blank_cell(),
    {
        CanvasCell::blank()
    }
}

/// The mathematical content of a canvas: its size and its rows of cells.
pub struct GridModel {
    pub width: nat,
    pub height: nat,
    pub rows: Seq<Seq<CanvasCell>>,
}

impl GridModel {
    /// There are `height` rows of `width` cells each.
    pub open spec fn wf(self) -> bool {
        &&& self.rows.len() == self.height
        &&& forall|y: int| 0 <= y < self.height ==> (#[trigger] self.rows[y]).len() == self.width
    }

    pub open spec fn in_bounds(self, x: int, y: int) -> bool {
        0 <= x < self.width && 0 <= y < self.height
    }

    /// The cell at column `x`, row `y` (meaningful inside the grid).
    pub open spec fn cell(self, x: int, y: int) -> CanvasCell {
        self.rows[y][x]
    }

    /// A grid of the given size holding only blank cells.
    pub open spec fn is_blank(self, width: nat, height: nat) -> bool {
        &&& self.wf()
        &&& self.width == width
        &&& self.height == height
        &&& forall|x: int, y: int| #![trigger self.cell(x, y)]
            self.in_bounds(x, y) ==> self.cell(x, y) == blank_cell()
    }

    /// `self` is `old` with the cell at (x, y) replaced by `c` when (x, y)
    /// lies inside the grid.
    pub open spec fn is_set(self, old: GridModel, x: int, y: int, c: CanvasCell) -> bool {
        &&& self.wf()
        &&& self.width == old.width
        &&& self.height == old.height
        &&& forall|i: int, j: int| #![trigger self.cell(i, j)]
            self.in_bounds(i, j) ==> self.cell(i, j) == (if i == x && j == y {
                c
            } else {
                old.cell(i, j)
            })
    }
}

/// A rectangular grid of cells, `height` rows of `width` cells each.
#[derive(Debug, Clone)]
pub struct CanvasBuffer {
    cells: Vec<Vec<CanvasCell>>,
    width: usize,
    height: usize,
}

impl View for CanvasBuffer {
    type V = GridModel;

    closed spec fn view(&self) -> GridModel {
        GridModel {
            width: self.width as nat,
            height: self.height as nat,
            rows: rows_view(self.cells@),
        }
    }
}

/// The cells of each row.
pub open spec fn rows_view(cells: Seq<Vec<CanvasCell>>) -> Seq<Seq<CanvasCell>> {
    cells.map_values(|r: Vec<CanvasCell>| r@)
}

/// Updating a row and then viewing the rows is viewing them and then
/// updating the row's view.
pub broadcast proof fn lemma_rows_view_update(cells: Seq<Vec<CanvasCell>>, y: int, row: Vec<CanvasCell>)
    requires
        0 <= y < cells.len(),
    ensures
        #[trigger] rows_view(cells.update(y, row)) == rows_view(cells).update(y, row@),
{
    assert(rows_view(cells.update(y, row)) =~= rows_view(cells).update(y, row@));
}

impl CanvasBuffer {
    /// A `width` x `height` buffer filled with blank cells.
    pub fn new(width: usize, height: usize) -> (b: CanvasBuffer)
        ensures
            b@.is_blank(width as nat, height as nat),
    {
        let mut cells: Vec<Vec<CanvasCell>> = Vec::new();
        let mut y: usize = 0;
        while y < height
            invariant
                y <= height,
                cells@.len() == y,
                forall|j: int| 0 <= j < y ==> (#[trigger] cells@[j])@.len() == width,
                forall|j: int, i: int| 0 <= j < y && 0 <= i < width ==> (#[trigger] cells@[j]@[i])
                    == blank_cell(),
            decreases height - y,
        {
            let mut row: Vec<CanvasCell> = Vec::new();
            let mut x: usize = 0;
            while x < width
                invariant
                    x <= width,
                    row@.len() == x,
                    forall|i: int| 0 <= i < x ==> (#[trigger] row@[i]) == blank_cell(),
                decreases width - x,
            {
                row.push(CanvasCell::blank());
                x = x + 1;
            }
            cells.push(row);
            y = y + 1;
        }
        let b = CanvasBuffer { cells, width, height };
        assert forall|j: int| 0 <= j < height implies (#[trigger] b@.rows[j]).len() == width by {
            assert(b@.rows[j] == b.cells@[j]@);
        }
        assert forall|i: int, j: int| #![trigger b@.cell(i, j)]
            b@.in_bounds(i, j) implies b@.cell(i, j) == blank_cell() by {
            assert(b@.rows[j] == b.cells@[j]@);
        }
        b
    }

    /// The cell at (x, y), or `None` outside the grid.
    pub fn get(&self, x: usize, y: usize) -> (r: Option<&CanvasCell>)
        requires
            self@.wf(),
        ensures
            r == (if self@.in_bounds(x as int, y as int) {
                Some(&self@.cell(x as int, y as int))
            } else {
                None
            }),
    {
        if x < self.width && y < self.height {
            proof {
                assert(self@.rows[y as int] == self.cells@[y as int]@);
                assert(self@.rows[y as int].len() == self.width);
            }
            Some(&self.cells[y][x])
        } else {
            None
        }
    }

    /// The cell at (x, y) to change in place, or `None` outside the grid
    /// (which then stays as it was).
    pub fn get_mut(&mut self, x: usize, y: usize) -> (r: Option<&mut CanvasCell>)
        requires
            old(self)@.wf(),
        ensures
            !old(self)@.in_bounds(x as int, y as int) ==> r is None && final(self)@ == old(self)@,
            old(self)@.in_bounds(x as int, y as int) ==> (r matches Some(c) && *c == old(self)@.cell(
                x as int,
                y as int,
            ) && final(self)@ == (GridModel {
                rows: old(self)@.rows.update(y as int, old(self)@.rows[y as int].update(x as int, *final(c))),
                ..old(self)@
            })),
    {
        broadcast use lemma_rows_view_update;
        if x < self.width && y < self.height {
            proof {
                assert(self@.rows[y as int] == self.cells@[y as int]@);
            }
            Some(&mut self.cells[y][x])
        } else {
            None
        }
    }

    /// Overwrite the cell at (x, y); a position outside the grid leaves the
    /// buffer as it was.
    pub fn set(&mut self, x: usize, y: usize, cell: CanvasCell)
        requires
            old(self)@.wf(),
        ensures
            final(self)@.is_set(old(self)@, x as int, y as int, cell),
    {
        proof {
            assert forall|j: int| 0 <= j < self.height implies (#[trigger] self.cells@[j])@.len()
                == self.width by {
                assert(self@.rows[j] == self.cells@[j]@);
            }
        }
        if x < self.width && y < self.height {
            self.cells[y].set(x, cell);
        }
        proof {
            assert forall|j: int| 0 <= j < self.height implies (#[trigger] self@.rows[j]).len()
                == self.width by {
                assert(self@.rows[j] == self.cells@[j]@);
            }
            assert forall|i: int, j: int| #![trigger self@.cell(i, j)]
                self@.in_bounds(i, j) implies self@.cell(i, j) == (if i == x && j == y {
                cell
            } else {
                old(self)@.cell(i, j)
            }) by {
                assert(self@.rows[j] == self.cells@[j]@);
                assert(old(self)@.rows[j] == old(self).cells@[j]@);
            }
        }
    }

    /// A copy of the buffer with the same size and cells.
    pub fn duplicate(&self) -> (r: CanvasBuffer)
        requires
            self@.wf(),
        ensures
            r@ == self@,
    {
        let mut cells: Vec<Vec<CanvasCell>> = Vec::new();
        let mut y: usize = 0;
        while y < self.cells.len()
            invariant
                y <= self.cells@.len(),
                cells@.len() == y,
                forall|j: int| 0 <= j < y ==> (#[trigger] cells@[j])@ == self.cells@[j]@,
            decreases self.cells@.len() - y,
        {
            let src = &self.cells[y];
            let mut row: Vec<CanvasCell> = Vec::new();
            let mut x: usize = 0;
            while x < src.len()
                invariant
                    x <= src@.len(),
                    row@ == src@.subrange(0, x as int),
                decreases src@.len() - x,
            {
                row.push(src[x]);
                x = x + 1;
                assert(row@ =~= src@.subrange(0, x as int));
            }
            assert(row@ =~= src@);
            cells.push(row);
            y = y + 1;
        }
        let r = CanvasBuffer { cells, width: self.width, height: self.height };
        assert(r@.rows =~= self@.rows);
        r
    }

    pub fn width(&self) -> (w: usize)
        ensures
            w == self@.width,
    {
        self.width
    }

    pub fn height(&self) -> (h: usize)
        ensures
            h == self@.height,
    {
        self.height
    }
}


/// Text drawn over the canvas at a position, with scale and rotation.
#[derive(Debug, Clone)]
pub struct TextOverlay {
    pub x: i16,
    pub y: i16,
    pub rows: Vec<String>,
    pub color: Option<Color>,
    pub scale: u8,
    pub rotation: u16,
}

/// The editable canvas: its buffer, the cursor, the scroll offset, the zoom
/// factor and the overlays drawn on top.
pub struct CanvasWidget {
    pub buffer: CanvasBuffer,
    cursor: (u16, u16),
    scroll: (u16, u16),
    zoom: u8,
    show_grid: bool,
    pub selection_perimeter: Option<Vec<(usize, usize)>>,
    pub polygon_vertices: Vec<(i16, i16)>,
    pub text_overlays: Vec<TextOverlay>,
    pub text_block_perimeter: Option<Vec<(usize, usize)>>,
}

/// The cursor bound along an axis of `n` cells: the last cell (`n - 1`
/// saturating at zero, truncated to 16 bits).
pub open spec fn max_cursor(n: nat) -> u16 {
    (if n == 0 {
        0
    } else {
        n - 1
    }) as u16
}

/// The scroll offset along one axis that keeps `cursor` on screen when
/// `visible` cells fit.
pub open spec fn scrolled(cursor: u16, scroll: u16, visible: u16) -> u16 {
    let s = if cursor < scroll {
        cursor
    } else {
        scroll
    };
    if visible > 0 && cursor >= s + visible {
        (cursor - visible + 1) as u16
    } else {
        s
    }
}

/// Scrolling along one axis cannot overflow.
pub open spec fn scroll_fits(cursor: u16, scroll: u16, visible: u16) -> bool {
    let s = if cursor < scroll {
        cursor
    } else {
        scroll
    };
    visible == 0 || s + visible <= u16::MAX
}

impl CanvasWidget {
    /// The cells of the buffer.
    pub closed spec fn grid(&self) -> GridModel {
        self.buffer@
    }

    pub closed spec fn spec_cursor(&self) -> (u16, u16) {
        self.cursor
    }

    pub closed spec fn spec_scroll(&self) -> (u16, u16) {
        self.scroll
    }

    pub closed spec fn spec_zoom(&self) -> u8 {
        self.zoom
    }

    pub closed spec fn spec_show_grid(&self) -> bool {
        self.show_grid
    }

    /// The polygon's vertices.
    pub closed spec fn spec_polygon(&self) -> Seq<(i16, i16)> {
        self.polygon_vertices@
    }

    /// The selection's outline, if any.
    pub closed spec fn spec_selection(&self) -> Option<Seq<(usize, usize)>> {
        match &self.selection_perimeter {
            Some(v) => Some(v@),
            None => None,
        }
    }

    /// The text block's outline, if any.
    pub closed spec fn spec_text_block(&self) -> Option<Seq<(usize, usize)>> {
        match &self.text_block_perimeter {
            Some(v) => Some(v@),
            None => None,
        }
    }

    /// The text overlays, in drawing order.
    pub closed spec fn spec_overlays(&self) -> Seq<TextOverlay> {
        self.text_overlays@
    }

    /// The buffer is well formed and the zoom factor is 1, 2, 4 or 8.
    pub closed spec fn wf(&self) -> bool {
        &&& self.buffer@.wf()
        &&& 1 <= self.spec_zoom() <= 8
    }

    /// No selection, polygon, text overlay or text block is drawn.
    pub closed spec fn no_overlays(&self) -> bool {
        &&& self.selection_perimeter.is_none()
        &&& self.polygon_vertices@.len() == 0
        &&& self.text_overlays@.len() == 0
        &&& self.text_block_perimeter.is_none()
    }

    /// Only the view state named in the call differs from `old`.
    pub closed spec fn same_content(&self, prev: &CanvasWidget) -> bool {
        &&& self.buffer@ == prev.buffer@
        &&& self.selection_perimeter == prev.selection_perimeter
        &&& self.polygon_vertices == prev.polygon_vertices
        &&& self.text_overlays == prev.text_overlays
        &&& self.text_block_perimeter == prev.text_block_perimeter
    }

    /// A blank canvas of the given size (at least 1x1), cursor and scroll at
    /// the origin, zoom 1, no grid and no overlays.
    pub fn new(width: u16, height: u16) -> (c: CanvasWidget)
        ensures
            c.wf(),
            c.grid().is_blank(
                (if width > 0 {
                    width as nat
                } else {
                    1
                }),
                (if height > 0 {
                    height as nat
                } else {
                    1
                }),
            ),
            c.spec_cursor() == (0u16, 0u16),
            c.spec_scroll() == (0u16, 0u16),
            c.spec_zoom() == 1,
            !c.spec_show_grid(),
            c.no_overlays(),
    {
        let w: usize = if width > 0 {
            width as usize
        } else {
            1
        };
        let h: usize = if height > 0 {
            height as usize
        } else {
            1
        };
        CanvasWidget {
            buffer: CanvasBuffer::new(w, h),
            cursor: (0, 0),
            scroll: (0, 0),
            zoom: 1,
            show_grid: false,
            selection_perimeter: None,
            polygon_vertices: Vec::new(),
            text_overlays: Vec::new(),
            text_block_perimeter: None,
        }
    }

    pub fn move_up(&mut self)
        ensures
            final(self).spec_cursor() == (if old(self).spec_cursor().1 > 0 {
                (old(self).spec_cursor().0, (old(self).spec_cursor().1 - 1) as u16)
            } else {
                old(self).spec_cursor()
            }),
            final(self).spec_scroll() == old(self).spec_scroll(),
            final(self).spec_zoom() == old(self).spec_zoom(),
            final(self).spec_show_grid() == old(self).spec_show_grid(),
            final(self).same_content(old(self)),
    {
        if self.cursor.1 > 0 {
            self.cursor.1 = self.cursor.1 - 1;
        }
    }

    pub fn move_down(&mut self)
        ensures
            final(self).spec_cursor() == (if old(self).spec_cursor().1 < max_cursor(
                old(self).grid().height,
            ) {
                (old(self).spec_cursor().0, (old(self).spec_cursor().1 + 1) as u16)
            } else {
                old(self).spec_cursor()
            }),
            final(self).spec_scroll() == old(self).spec_scroll(),
            final(self).spec_zoom() == old(self).spec_zoom(),
            final(self).spec_show_grid() == old(self).spec_show_grid(),
            final(self).same_content(old(self)),
    {
        let h = self.buffer.height();
        let max_y: u16 = if h == 0 {
            0
        } else {
            (h - 1) as u16
        };
        if self.cursor.1 < max_y {
            self.cursor.1 = self.cursor.1 + 1;
        }
    }

    pub fn move_left(&mut self)
        ensures
            final(self).spec_cursor() == (if old(self).spec_cursor().0 > 0 {
                ((old(self).spec_cursor().0 - 1) as u16, old(self).spec_cursor().1)
            } else {
                old(self).spec_cursor()
            }),
            final(self).spec_scroll() == old(self).spec_scroll(),
            final(self).spec_zoom() == old(self).spec_zoom(),
            final(self).spec_show_grid() == old(self).spec_show_grid(),
            final(self).same_content(old(self)),
    {
        if self.cursor.0 > 0 {
            self.cursor.0 = self.cursor.0 - 1;
        }
    }

    pub fn move_right(&mut self)
        ensures
            final(self).spec_cursor() == (if old(self).spec_cursor().0 < max_cursor(
                old(self).grid().width,
            ) {
                ((old(self).spec_cursor().0 + 1) as u16, old(self).spec_cursor().1)
            } else {
                old(self).spec_cursor()
            }),
            final(self).spec_scroll() == old(self).spec_scroll(),
            final(self).spec_zoom() == old(self).spec_zoom(),
            final(self).spec_show_grid() == old(self).spec_show_grid(),
            final(self).same_content(old(self)),
    {
        let w = self.buffer.width();
        let max_x: u16 = if w == 0 {
            0
        } else {
            (w - 1) as u16
        };
        if self.cursor.0 < max_x {
            self.cursor.0 = self.cursor.0 + 1;
        }
    }

    /// Double the zoom, up to 8.
    pub fn zoom_in(&mut self)
        requires
            old(self).wf(),
        ensures
            final(self).wf(),
            final(self).spec_zoom() == (if old(self).spec_zoom() * 2 > 8 {
                8
            } else {
                old(self).spec_zoom() * 2
            }),
            final(self).spec_cursor() == old(self).spec_cursor(),
            final(self).spec_scroll() == old(self).spec_scroll(),
            final(self).spec_show_grid() == old(self).spec_show_grid(),
            final(self).same_content(old(self)),
    {
        let z = self.zoom * 2;
        self.zoom = if z > 8 {
            8
        } else {
            z
        };
    }

    /// Halve the zoom, down to 1.
    pub fn zoom_out(&mut self)
        requires
            old(self).wf(),
        ensures
            final(self).wf(),
            final(self).spec_zoom() == (if old(self).spec_zoom() / 2 < 1 {
                1
            } else {
                old(self).spec_zoom() / 2
            }),
            final(self).spec_cursor() == old(self).spec_cursor(),
            final(self).spec_scroll() == old(self).spec_scroll(),
            final(self).spec_show_grid() == old(self).spec_show_grid(),
            final(self).same_content(old(self)),
    {
        let z = self.zoom / 2;
        self.zoom = if z < 1 {
            1
        } else {
            z
        };
    }

    pub fn toggle_grid(&mut self)
        ensures
            final(self).spec_show_grid() == !old(self).spec_show_grid(),
            final(self).spec_cursor() == old(self).spec_cursor(),
            final(self).spec_scroll() == old(self).spec_scroll(),
            final(self).spec_zoom() == old(self).spec_zoom(),
            final(self).same_content(old(self)),
    {
        self.show_grid = !self.show_grid;
    }

    pub fn cursor(&self) -> (c: (u16, u16))
        ensures
            c == self.spec_cursor(),
    {
        self.cursor
    }

    pub fn zoom_level(&self) -> (z: u8)
        ensures
            z == self.spec_zoom(),
    {
        self.zoom
    }

    pub fn show_grid(&self) -> (b: bool)
        ensures
            b == self.spec_show_grid(),
    {
        self.show_grid
    }

    /// Put the cursor at (x, y), each clamped to the last cell.
    pub fn set_cursor(&mut self, x: u16, y: u16)
        ensures
            final(self).spec_cursor() == ((if x < max_cursor(old(self).grid().width) {
                x
            } else {
                max_cursor(old(self).grid().width)
            }), (if y < max_cursor(old(self).grid().height) {
                y
            } else {
                max_cursor(old(self).grid().height)
            })),
            final(self).spec_scroll() == old(self).spec_scroll(),
            final(self).spec_zoom() == old(self).spec_zoom(),
            final(self).spec_show_grid() == old(self).spec_show_grid(),
            final(self).same_content(old(self)),
    {
        let w = self.buffer.width();
        let h = self.buffer.height();
        let max_x: u16 = if w == 0 {
            0
        } else {
            (w - 1) as u16
        };
        let max_y: u16 = if h == 0 {
            0
        } else {
            (h - 1) as u16
        };
        self.cursor = (if x < max_x {
            x
        } else {
            max_x
        }, if y < max_y {
            y
        } else {
            max_y
        });
    }

    pub fn scroll_offset(&self) -> (s: (u16, u16))
        ensures
            s == self.spec_scroll(),
    {
        self.scroll
    }

    /// Scroll so the cursor lies inside a view of `inner_width` x
    /// `inner_height` terminal cells at the current zoom; an empty view
    /// changes nothing.
    pub fn ensure_cursor_visible(&mut self, inner_width: u16, inner_height: u16)
        requires
            old(self).wf(),
            scroll_fits(old(self).spec_cursor().0, old(self).spec_scroll().0, inner_width / old(self).spec_zoom() as u16),
            scroll_fits(old(self).spec_cursor().1, old(self).spec_scroll().1, inner_height / old(self).spec_zoom() as u16),
        ensures
            final(self).wf(),
            final(self).spec_scroll() == followed(old(self).spec_cursor(), old(self).spec_scroll(), old(self).spec_zoom(), inner_width, inner_height),
            final(self).spec_cursor() == old(self).spec_cursor(),
            final(self).spec_zoom() == old(self).spec_zoom(),
            final(self).spec_show_grid() == old(self).spec_show_grid(),
            final(self).same_content(old(self)),
    {
        let zoom = self.zoom as u16;
        if inner_width == 0 || inner_height == 0 {
            return;
        }
        let vis_w = inner_width / zoom;
        let vis_h = inner_height / zoom;
        if self.cursor.0 < self.scroll.0 {
            self.scroll.0 = self.cursor.0;
        }
        if vis_w > 0 && self.cursor.0 >= self.scroll.0 + vis_w {
            self.scroll.0 = self.cursor.0 - vis_w + 1;
        }
        if self.cursor.1 < self.scroll.1 {
            self.scroll.1 = self.cursor.1;
        }
        if vis_h > 0 && self.cursor.1 >= self.scroll.1 + vis_h {
            self.scroll.1 = self.cursor.1 - vis_h + 1;
        }
    }

    /// Arrow keys move the cursor, `+`/`=` and `-`/`_` zoom, `G` toggles
    /// the grid; after a move or a zoom the view follows the cursor. Returns
    /// whether the key was used.
    pub fn handle_key(&mut self, code: KeyCode, inner_width: u16, inner_height: u16) -> (used: bool)
        requires
            old(self).wf(),
            old(self).spec_scroll().0 as int + inner_width <= u16::MAX,
            old(self).spec_scroll().1 as int + inner_height <= u16::MAX,
        ensures
            final(self).wf(),
            used == canvas_key_used(code),
            final(self).spec_show_grid() == (if code == KeyCode::Char('G') {
                !old(self).spec_show_grid()
            } else {
                old(self).spec_show_grid()
            }),
            final(self).spec_cursor() == key_cursor(code, old(self).spec_cursor(), old(self).grid().width, old(self).grid().height),
            final(self).spec_zoom() == key_zoom(code, old(self).spec_zoom()),
            final(self).spec_scroll() == (if canvas_key_used(code) && code != KeyCode::Char('G') {
                followed(
                    key_cursor(code, old(self).spec_cursor(), old(self).grid().width, old(self).grid().height),
                    old(self).spec_scroll(),
                    key_zoom(code, old(self).spec_zoom()),
                    inner_width,
                    inner_height,
                )
            } else {
                old(self).spec_scroll()
            }),
            final(self).same_content(old(self)),
    {
        let ghost s0 = self.spec_scroll();
        match code {
            KeyCode::Up => {
                self.move_up();
            },
            KeyCode::Down => {
                self.move_down();
            },
            KeyCode::Left => {
                self.move_left();
            },
            KeyCode::Right => {
                self.move_right();
            },
            KeyCode::Char('+') | KeyCode::Char('=') => {
                self.zoom_in();
            },
            KeyCode::Char('-') | KeyCode::Char('_') => {
                self.zoom_out();
            },
            KeyCode::Char('G') => {
                self.toggle_grid();
                return true;
            },
            _ => {
                return false;
            },
        }
        proof {
            lemma_visible_fits(self.spec_cursor().0, s0.0, inner_width, self.spec_zoom());
            lemma_visible_fits(self.spec_cursor().1, s0.1, inner_height, self.spec_zoom());
        }
        self.ensure_cursor_visible(inner_width, inner_height);
        true
    }
}

/// The keys the canvas reacts to.
pub open spec fn canvas_key_used(code: KeyCode) -> bool {
    ||| code == KeyCode::Up
    ||| code == KeyCode::Down
    ||| code == KeyCode::Left
    ||| code == KeyCode::Right
    ||| code == KeyCode::Char('+')
    ||| code == KeyCode::Char('=')
    ||| code == KeyCode::Char('-')
    ||| code == KeyCode::Char('_')
    ||| code == KeyCode::Char('G')
}

/// The cursor after a key on a canvas of `w` x `h` cells.
pub open spec fn key_cursor(code: KeyCode, c: (u16, u16), w: nat, h: nat) -> (u16, u16) {
    if code == KeyCode::Up {
        if c.1 > 0 { (c.0, (c.1 - 1) as u16) } else { c }
    } else if code == KeyCode::Down {
        if c.1 < max_cursor(h) { (c.0, (c.1 + 1) as u16) } else { c }
    } else if code == KeyCode::Left {
        if c.0 > 0 { ((c.0 - 1) as u16, c.1) } else { c }
    } else if code == KeyCode::Right {
        if c.0 < max_cursor(w) { ((c.0 + 1) as u16, c.1) } else { c }
    } else {
        c
    }
}

/// The zoom after a key: doubled up to 8, or halved down to 1.
pub open spec fn key_zoom(code: KeyCode, z: u8) -> u8 {
    if code == KeyCode::Char('+') || code == KeyCode::Char('=') {
        if z * 2 > 8 { 8 } else { (z * 2) as u8 }
    } else if code == KeyCode::Char('-') || code == KeyCode::Char('_') {
        if z / 2 < 1 { 1 } else { (z / 2) as u8 }
    } else {
        z
    }
}

/// The scroll offset that brings `cursor` into a view of `iw` x `ih`
/// terminal cells at zoom `z`; an empty view keeps `scroll`.
pub open spec fn followed(cursor: (u16, u16), scroll: (u16, u16), z: u8, iw: u16, ih: u16) -> (u16, u16) {
    if iw == 0 || ih == 0 {
        scroll
    } else {
        (scrolled(cursor.0, scroll.0, iw / z as u16), scrolled(cursor.1, scroll.1, ih / z as u16))
    }
}

proof fn lemma_visible_fits(cursor: u16, scroll: u16, inner: u16, z: u8)
    requires
        1 <= z,
        scroll as int + inner <= u16::MAX,
    ensures
        scroll_fits(cursor, scroll, inner / z as u16),
{
    assert(inner / z as u16 <= inner) by (nonlinear_arith)
        requires
            1 <= z,
    ;
}

impl CanvasWidget {
    /// Draw the canvas over `frame`, the `width` x `height` terminal cells
    /// it is shown in, with the selection outline and vertices in
    /// `selection` and the text block outline in `text_block`: see
    /// `rendered`.
    pub fn render(&self, frame: Vec<Vec<TermCell>>, width: u16, height: u16, selection: Color, text_block: Color) -> (out: Vec<Vec<TermCell>>)
        requires
            self.wf(),
            shaped(picture(frame@), width as nat, height as nat),
            render_fits(self.grid(), self.spec_scroll(), self.spec_zoom(), self.spec_selection(), self.spec_text_block(), self.spec_overlays(), width, height),
        ensures
            picture(out@) == rendered(
                self.grid(),
                self.spec_scroll(),
                self.spec_zoom(),
                self.spec_show_grid(),
                self.spec_cursor(),
                self.spec_polygon(),
                self.spec_selection(),
                self.spec_text_block(),
                self.spec_overlays(),
                picture(frame@),
                width,
                height,
                selection,
                text_block,
            ),
    {
        render_frame(
            &self.buffer,
            self.scroll,
            self.zoom,
            self.show_grid,
            self.cursor,
            &self.polygon_vertices,
            &self.selection_perimeter,
            &self.text_block_perimeter,
            &self.text_overlays,
            frame,
            width,
            height,
            selection,
            text_block,
        )
    }
}

impl Default for CanvasWidget {
    fn default() -> (c: CanvasWidget)
        ensures
            c.wf(),
            c.grid().is_blank(1, 1),
            c.spec_cursor() == (0u16, 0u16),
            c.spec_scroll() == (0u16, 0u16),
            c.spec_zoom() == 1,
            !c.spec_show_grid(),
    {
        CanvasWidget::new(1, 1)
    }
}


/// Moving the cursor with a key keeps it on a canvas of `w` x `h` cells.
pub proof fn law_key_cursor_in_bounds(code: KeyCode, c: (u16, u16), w: nat, h: nat)
    requires
        1 <= w <= u16::MAX + 1,
        1 <= h <= u16::MAX + 1,
        c.0 < w,
        c.1 < h,
    ensures
        key_cursor(code, c, w, h).0 < w,
        key_cursor(code, c, w, h).1 < h,
{
}

/// Zooming with a key keeps the zoom factor between 1 and 8.
pub proof fn law_key_zoom_in_range(code: KeyCode, z: u8)
    requires
        1 <= z <= 8,
    ensures
        1 <= key_zoom(code, z) <= 8,
{
}

/// After following the cursor, it lies inside the visible part of the
/// axis: at or after the scroll offset and fewer than `visible` cells
/// past it.
pub proof fn law_scrolled_shows_cursor(cursor: u16, scroll: u16, visible: u16)
    requires
        visible > 0,
        scroll_fits(cursor, scroll, visible),
    ensures
        scrolled(cursor, scroll, visible) <= cursor,
        cursor < scrolled(cursor, scroll, visible) + visible,
{
}

} // verus!
