use figby::layout::{palette_editor_overlay, toolbox_list_borders, Area, FrameLayout, Sides};

fn area(x: u16, y: u16, width: u16, height: u16) -> Area {
    Area { x, y, width, height }
}

#[test]
fn default_layout_of_80_by_24() {
    let l = FrameLayout::default();
    assert_eq!(l.menu, area(0, 0, 80, 1));
    assert_eq!(l.tabs, area(0, 1, 80, 3));
    assert_eq!(l.main, area(0, 4, 80, 19));
    assert_eq!(l.status, area(0, 23, 80, 1));
    assert_eq!(l.toolbox_full, Some(area(0, 4, 20, 19)));
    assert_eq!(l.canvas, area(20, 4, 60, 19));
    assert_eq!(l.toolbox_list, Some(area(0, 4, 20, 15)));
    assert_eq!(l.palette, Some(area(0, 19, 20, 4)));
    assert_eq!(l.right_panel, None);
    assert_eq!(l.timeline, None);
}

#[test]
fn layout_with_drawer_and_timeline() {
    let l = FrameLayout::compute(area(0, 0, 80, 24), false, true, 20, 15, true);
    assert_eq!(l.timeline, Some(area(0, 15, 80, 8)));
    assert_eq!(l.toolbox_full, Some(area(0, 4, 20, 11)));
    assert_eq!(l.canvas, area(20, 4, 32, 11));
    assert_eq!(l.right_panel, Some(area(52, 4, 28, 11)));
    assert_eq!(l.canvas_borders(), Sides { top: true, right: false, bottom: false, left: false });
    assert_eq!(l.timeline_borders(), Sides { top: false, right: true, bottom: true, left: true });
}

#[test]
fn zen_layout_gives_canvas_the_screen() {
    let l = FrameLayout::compute(area(0, 0, 100, 30), true, true, 20, 15, true);
    assert_eq!(l.canvas, area(0, 0, 100, 30));
    assert_eq!(l.toolbox_full, None);
    assert_eq!(l.right_panel, None);
    assert_eq!(l.timeline, None);
    assert_eq!(l.canvas_borders(), Sides { top: true, right: true, bottom: true, left: true });
    assert_eq!(toolbox_list_borders(), Sides { top: true, right: true, bottom: true, left: true });
}

#[test]
fn palette_overlay_is_centred() {
    assert_eq!(palette_editor_overlay(area(0, 0, 80, 24)), area(19, 6, 42, 12));
    assert_eq!(palette_editor_overlay(area(0, 0, 30, 10)), area(2, 2, 26, 6));
    assert_eq!(palette_editor_overlay(area(10, 5, 100, 40)), area(39, 15, 42, 20));
}
