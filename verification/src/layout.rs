use vstd::prelude::*;

use ratatui::layout::{Constraint as RConstraint, Layout, Rect};

verus! {

/// The height of the timeline panel.
pub const TIMELINE_HEIGHT: u16 = 8;

/// The width of the right drawer.
pub const DRAWER_WIDTH: u16 = 28;

/// A rectangle of terminal cells.
#[derive(Debug, Clone, Copy, PartialEq, Eq, Structural)]
pub struct Area {
    pub x: u16,
    pub y: u16,
    pub width: u16,
    pub height: u16,
}

/// The inside of a rectangle framed by a border on all four sides, as
/// `Block::inner` gives it for `Rect::new(x, y, width, height)`: the width
/// is first cut so the rectangle ends by `u16::MAX`; the corner moves in
/// by one cell (not past the far edge) and each side loses two cells.
pub open spec fn bordered_inner(a: Area) -> Area {
    let w: int = if a.width > u16::MAX - a.x { u16::MAX - a.x } else { a.width as int };
    let h: int = if a.height > u16::MAX - a.y { u16::MAX - a.y } else { a.height as int };
    Area {
        x: (if w >= 1 { a.x + 1 } else { a.x as int }) as u16,
        y: (if h >= 1 { a.y + 1 } else { a.y as int }) as u16,
        width: (if w >= 2 { w - 2 } else { 0 }) as u16,
        height: (if h >= 2 { h - 2 } else { 0 }) as u16,
    }
}

/// `Block::default().borders(Borders::ALL).inner(..)`: the inside of the
/// panel's frame (see `bordered_inner`).
#[verifier::external_body]
pub(crate) fn block_inner(a: Area) -> (r: Area)
    ensures
        r == bordered_inner(a),
{
    let rect = Rect::new(a.x, a.y, a.width, a.height);
    let inner = ratatui::widgets::Block::default().borders(ratatui::widgets::Borders::ALL).inner(rect);
    Area { x: inner.x, y: inner.y, width: inner.width, height: inner.height }
}

/// How one part of a split claims its share of the space.
#[derive(Debug, Clone, Copy, PartialEq, Eq, Structural)]
pub enum Constraint {
    /// Exactly this many cells.
    Length(u16),
    /// What is left, shared by weight.
    Fill(u16),
    /// At least this many cells.
    Min(u16),
}

/// `Layout::vertical(..)` or `Layout::horizontal(..)` with `spacing(0)`,
/// then `split` of `Rect::new(area..)`: one part per constraint, top to
/// bottom (`vertical`) or left to right. Where the parts lie is left
/// unsaid: the cassowary solver behind `split` picks among optima by
/// walking hash maps that each process seeds anew. The `expect` in `split`
/// fires only when the solver refuses a required constraint, and every
/// required constraint the layout adds can be met.
#[verifier::external_body]
fn split(vertical: bool, constraints: &[Constraint], area: Area) -> (r: Vec<Area>)
    ensures
        r@.len() == constraints@.len(),
{
    let cs: Vec<RConstraint> = constraints.iter().map(|c| match c {
        Constraint::Length(n) => RConstraint::Length(*n),
        Constraint::Fill(n) => RConstraint::Fill(*n),
        Constraint::Min(n) => RConstraint::Min(*n),
    }).collect();
    let layout = if vertical { Layout::vertical(cs) } else { Layout::horizontal(cs) };
    let rect = Rect::new(area.x, area.y, area.width, area.height);
    layout.spacing(0).split(rect).iter().map(|r| Area { x: r.x, y: r.y, width: r.width, height: r.height }).collect()
}

/// Which sides of a panel get a border.
#[derive(Debug, Clone, Copy, PartialEq, Eq, Structural)]
pub struct Sides {
    pub top: bool,
    pub right: bool,
    pub bottom: bool,
    pub left: bool,
}

/// Every side.
pub open spec fn all_sides() -> Sides {
    Sides { top: true, right: true, bottom: true, left: true }
}

/// The areas of one frame of the screen. The toolbox column, its list and
/// the palette are absent in zen mode; the right drawer when it is closed;
/// the timeline when it is hidden.
#[derive(Debug, Clone, Copy, PartialEq, Eq, Structural)]
pub struct FrameLayout {
    pub menu: Area,
    pub tabs: Area,
    pub main: Area,
    pub status: Area,
    pub toolbox_full: Option<Area>,
    pub toolbox_list: Option<Area>,
    pub palette: Option<Area>,
    pub canvas: Area,
    pub right_panel: Option<Area>,
    pub timeline: Option<Area>,
}

/// The layout of a frame assembled from the parts of its splits: `vert`,
/// the four rows of `area` (a one-row menu, three rows of tabs, the main
/// part and a one-row status bar); `v`, the main part cut into what is
/// left and the timeline (`TIMELINE_HEIGHT` rows at the bottom); `h`, what
/// is left cut into the toolbox column, the canvas and, when open, the
/// drawer; `left`, the toolbox column cut into the tool list and the
/// palette. In zen mode the canvas takes the whole screen and only `vert`
/// is used; `v` is used only when the timeline is shown.
pub open spec fn assemble_frame(
    area: Area,
    zen_mode: bool,
    side_panel_open: bool,
    timeline_visible: bool,
    vert: Seq<Area>,
    v: Seq<Area>,
    h: Seq<Area>,
    left: Seq<Area>,
) -> FrameLayout {
    if zen_mode {
        FrameLayout {
            menu: vert[0],
            tabs: vert[1],
            main: vert[2],
            status: vert[3],
            toolbox_full: None,
            toolbox_list: None,
            palette: None,
            canvas: area,
            right_panel: None,
            timeline: None,
        }
    } else {
        FrameLayout {
            menu: vert[0],
            tabs: vert[1],
            main: vert[2],
            status: vert[3],
            toolbox_full: Some(h[0]),
            toolbox_list: Some(left[0]),
            palette: Some(left[1]),
            canvas: h[1],
            right_panel: if side_panel_open { Some(h[2]) } else { None },
            timeline: if timeline_visible { Some(v[1]) } else { None },
        }
    }
}

/// The parts of the splits that a frame uses are all there: four rows; and
/// out of zen mode two for the timeline cut when it is shown, three or two
/// columns as the drawer is open or not, and two for the toolbox column.
pub open spec fn frame_parts_fit(
    zen_mode: bool,
    side_panel_open: bool,
    timeline_visible: bool,
    vert: Seq<Area>,
    v: Seq<Area>,
    h: Seq<Area>,
    left: Seq<Area>,
) -> bool {
    &&& vert.len() == 4
    &&& !zen_mode ==> {
        &&& timeline_visible ==> v.len() == 2
        &&& h.len() == if side_panel_open { 3nat } else { 2nat }
        &&& left.len() == 2
    }
}

/// `r` is a frame of `area` assembled from some parts of the splits.
pub open spec fn is_frame_layout(r: FrameLayout, area: Area, zen_mode: bool, side_panel_open: bool, timeline_visible: bool) -> bool {
    exists|vert: Seq<Area>, v: Seq<Area>, h: Seq<Area>, left: Seq<Area>|
        #![trigger assemble_frame(area, zen_mode, side_panel_open, timeline_visible, vert, v, h, left)]
        frame_parts_fit(zen_mode, side_panel_open, timeline_visible, vert, v, h, left)
            && r == assemble_frame(area, zen_mode, side_panel_open, timeline_visible, vert, v, h, left)
}

/// The borders of the tool list: all four sides.
pub fn toolbox_list_borders() -> (s: Sides)
    ensures
        s == all_sides(),
{
    Sides { top: true, right: true, bottom: true, left: true }
}

impl FrameLayout {
    /// Lay out a frame of `area`: split it into rows; out of zen mode cut
    /// the timeline (when shown) off the main part, cut what is left into
    /// the toolbox column (`toolbox_width` wide), the canvas and the drawer
    /// (`DRAWER_WIDTH` wide, when open), and the toolbox column into the
    /// tool list (`toolbox_h` high) and the palette. The splits' parts are
    /// put together by `assemble`.
    pub fn compute(area: Area, zen_mode: bool, side_panel_open: bool, toolbox_width: u16, toolbox_h: u16, timeline_visible: bool) -> (r: FrameLayout)
        ensures
            is_frame_layout(r, area, zen_mode, side_panel_open, timeline_visible),
    {
        let rows = [Constraint::Length(1), Constraint::Length(3), Constraint::Fill(1), Constraint::Length(1)];
        let vert = split(true, &rows, area);
        let no_parts: Vec<Area> = Vec::new();
        if zen_mode {
            let r = FrameLayout::assemble(area, zen_mode, side_panel_open, timeline_visible, &vert, &no_parts, &no_parts, &no_parts);
            assert(frame_parts_fit(zen_mode, side_panel_open, timeline_visible, vert@, no_parts@, no_parts@, no_parts@));
            return r;
        }
        let v = if timeline_visible {
            let parts = [Constraint::Fill(1), Constraint::Length(TIMELINE_HEIGHT)];
            split(true, &parts, vert[2])
        } else {
            Vec::new()
        };
        let main_area = if timeline_visible { v[0] } else { vert[2] };
        let h = if side_panel_open {
            let cols = [Constraint::Length(toolbox_width), Constraint::Fill(1), Constraint::Length(DRAWER_WIDTH)];
            split(false, &cols, main_area)
        } else {
            let cols = [Constraint::Length(toolbox_width), Constraint::Fill(1)];
            split(false, &cols, main_area)
        };
        let column = [Constraint::Length(toolbox_h), Constraint::Min(0)];
        let left = split(true, &column, h[0]);
        let r = FrameLayout::assemble(area, zen_mode, side_panel_open, timeline_visible, &vert, &v, &h, &left);
        assert(frame_parts_fit(zen_mode, side_panel_open, timeline_visible, vert@, v@, h@, left@));
        r
    }

    /// Put a frame together from the parts of its splits (see
    /// `assemble_frame`).
    pub fn assemble(
        area: Area,
        zen_mode: bool,
        side_panel_open: bool,
        timeline_visible: bool,
        vert: &[Area],
        v: &[Area],
        h: &[Area],
        left: &[Area],
    ) -> (r: FrameLayout)
        requires
            frame_parts_fit(zen_mode, side_panel_open, timeline_visible, vert@, v@, h@, left@),
        ensures
            r == assemble_frame(area, zen_mode, side_panel_open, timeline_visible, vert@, v@, h@, left@),
    {
        if zen_mode {
            return FrameLayout {
                menu: vert[0],
                tabs: vert[1],
                main: vert[2],
                status: vert[3],
                toolbox_full: None,
                toolbox_list: None,
                palette: None,
                canvas: area,
                right_panel: None,
                timeline: None,
            };
        }
        FrameLayout {
            menu: vert[0],
            tabs: vert[1],
            main: vert[2],
            status: vert[3],
            toolbox_full: Some(h[0]),
            toolbox_list: Some(left[0]),
            palette: Some(left[1]),
            canvas: h[1],
            right_panel: if side_panel_open { Some(h[2]) } else { None },
            timeline: if timeline_visible { Some(v[1]) } else { None },
        }
    }

    /// The borders of the canvas: the side it shares with the toolbox
    /// column or the drawer is left to them, and the bottom to the
    /// timeline.
    pub fn canvas_borders(&self) -> (s: Sides)
        ensures
            s == (Sides {
                top: true,
                right: self.right_panel is None,
                bottom: self.timeline is None,
                left: self.toolbox_full is None,
            }),
    {
        Sides {
            top: true,
            right: self.right_panel.is_none(),
            bottom: self.timeline.is_none(),
            left: self.toolbox_full.is_none(),
        }
    }

    /// The borders of the timeline: all but the top, which the canvas
    /// draws.
    pub fn timeline_borders(&self) -> (s: Sides)
        ensures
            s == (Sides { top: false, right: true, bottom: true, left: true }),
    {
        Sides { top: false, right: true, bottom: true, left: true }
    }
}

impl Default for FrameLayout {
    /// The layout of an 80 x 24 screen with the toolbox 20 wide and its
    /// list 15 high, no drawer and no timeline.
    fn default() -> (r: FrameLayout)
        ensures
            is_frame_layout(r, Area { x: 0, y: 0, width: 80, height: 24 }, false, false, false),
    {
        FrameLayout::compute(Area { x: 0, y: 0, width: 80, height: 24 }, false, false, 20, 15, false)
    }
}

/// The palette editor's overlay: 42 columns wide (less on a narrow area,
/// leaving two on each side), half the height but at least 12 rows (less on
/// a short area, leaving two above and below), centred.
pub open spec fn overlay_of(area: Area) -> Area {
    let wcap: int = if area.width >= 4 { area.width - 4 } else { 0 };
    let hcap: int = if area.height >= 4 { area.height - 4 } else { 0 };
    let width: int = if 42 < wcap { 42 } else { wcap };
    let half: int = if area.height / 2 > 12 { (area.height / 2) as int } else { 12 };
    let height: int = if half < hcap { half } else { hcap };
    Area {
        x: (area.x + (area.width - width) / 2) as u16,
        y: (area.y + (area.height - height) / 2) as u16,
        width: width as u16,
        height: height as u16,
    }
}

/// The centred overlay of the palette editor: see `overlay_of`.
pub fn palette_editor_overlay(area: Area) -> (r: Area)
    requires
        area.x + area.width <= u16::MAX,
        area.y + area.height <= u16::MAX,
    ensures
        r == overlay_of(area),
{
    let wcap: u16 = if area.width >= 4 { area.width - 4 } else { 0 };
    let hcap: u16 = if area.height >= 4 { area.height - 4 } else { 0 };
    let width: u16 = if 42 < wcap { 42 } else { wcap };
    let half: u16 = if area.height / 2 > 12 { area.height / 2 } else { 12 };
    let height: u16 = if half < hcap { half } else { hcap };
    let x = area.x + (area.width - width) / 2;
    let y = area.y + (area.height - height) / 2;
    Area { x, y, width, height }
}

} // verus!
