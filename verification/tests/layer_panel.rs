use figby::keys::{KeyCode, KeyModifiers};
use figby::layer_panel::{LayerPanel, MouseKind, PanelRow};
use figby::layout::Area;
use figby::layers::LayerButton;
use figby::layers::{BlendMode, LayerStack};

fn new_stack(w: usize, h: usize) -> LayerStack {
    LayerStack::new(w, h)
}

#[test]
fn test_layer_panel_link_pending_via_keyboard() {
    let mut stack = new_stack(10, 10);
    stack.add(10, 10);
    let mut panel = LayerPanel::new();

    stack.active = 0;
    assert!(panel.handle_key(KeyCode::Char('k'), KeyModifiers::none(), &mut stack));
    assert_eq!(panel.link_pending, Some(0));

    stack.active = 1;
    assert!(panel.handle_key(KeyCode::Char('k'), KeyModifiers::none(), &mut stack));
    assert_eq!(panel.link_pending, None);
    assert_eq!(stack.layers[0].link, stack.layers[1].link);
    assert!(stack.layers[0].link.is_some());
}

#[test]
fn test_layer_panel_rename_via_f2() {
    let mut stack = new_stack(10, 10);
    let mut panel = LayerPanel::new();

    assert!(panel.handle_key(KeyCode::F(2), KeyModifiers::none(), &mut stack));
    assert_eq!(panel.renaming, Some(0));
    assert_eq!(panel.rename_buffer, "Background");

    for c in "Sky".chars() {
        assert!(panel.handle_key(KeyCode::Char(c), KeyModifiers::none(), &mut stack));
    }
    assert_eq!(panel.rename_buffer, "BackgroundSky");

    assert!(panel.handle_key(KeyCode::Enter, KeyModifiers::none(), &mut stack));
    assert_eq!(stack.layers[0].name, "BackgroundSky");
    assert_eq!(panel.renaming, None);
}

#[test]
fn test_layer_panel_rename_esc_cancels() {
    let mut stack = new_stack(10, 10);
    let mut panel = LayerPanel::new();
    panel.handle_key(KeyCode::F(2), KeyModifiers::none(), &mut stack);
    panel.handle_key(KeyCode::Char('X'), KeyModifiers::none(), &mut stack);
    panel.handle_key(KeyCode::Esc, KeyModifiers::none(), &mut stack);
    assert_eq!(panel.renaming, None);
    assert_eq!(stack.layers[0].name, "Background");
}

#[test]
fn panel_link_same_layer_twice_cancels() {
    let mut stack = new_stack(4, 4);
    stack.add(4, 4);
    let mut panel = LayerPanel::new();
    stack.active = 1;
    panel.handle_key(KeyCode::Char('K'), KeyModifiers::none(), &mut stack);
    panel.handle_key(KeyCode::Char('K'), KeyModifiers::none(), &mut stack);
    assert_eq!(panel.link_pending, None);
    assert!(stack.layers[1].link.is_none());
    assert!(stack.links.is_empty());
}

#[test]
fn panel_opacity_and_blend_keys() {
    let mut stack = new_stack(4, 4);
    let mut panel = LayerPanel::new();
    assert_eq!(stack.layers[0].opacity, 255);
    panel.handle_key(KeyCode::Char('+'), KeyModifiers::none(), &mut stack);
    assert_eq!(stack.layers[0].opacity, 255);
    panel.handle_key(KeyCode::Char('-'), KeyModifiers::none(), &mut stack);
    assert_eq!(stack.layers[0].opacity, 230);
    for _ in 0..20 {
        panel.handle_key(KeyCode::Char('_'), KeyModifiers::none(), &mut stack);
    }
    assert_eq!(stack.layers[0].opacity, 0);
    panel.handle_key(KeyCode::Char('b'), KeyModifiers::none(), &mut stack);
    assert_eq!(stack.layers[0].blend_mode, BlendMode::Multiply);
    panel.handle_key(KeyCode::Char('B'), KeyModifiers::none(), &mut stack);
    panel.handle_key(KeyCode::Char('B'), KeyModifiers::none(), &mut stack);
    assert_eq!(stack.layers[0].blend_mode, BlendMode::Subtract);
}

#[test]
fn panel_add_move_and_select() {
    let mut stack = new_stack(6, 3);
    let mut panel = LayerPanel::new();
    assert!(panel.handle_key(KeyCode::Char('n'), KeyModifiers::none(), &mut stack));
    assert_eq!(stack.layers.len(), 2);
    assert_eq!(stack.active, 1);
    assert_eq!(stack.layers[1].name, "Layer 2");
    assert_eq!(stack.layers[1].buffer.width(), 6);
    assert!(panel.handle_key(KeyCode::Down, KeyModifiers::alt(), &mut stack));
    assert_eq!(stack.active, 1);
    assert!(panel.handle_key(KeyCode::Up, KeyModifiers::alt(), &mut stack));
    assert_eq!(stack.active, 0);
    assert!(panel.handle_key(KeyCode::Up, KeyModifiers::alt(), &mut stack));
    assert_eq!(stack.active, 0);
    assert!(!panel.handle_key(KeyCode::Up, KeyModifiers::none(), &mut stack));
    assert!(panel.handle_key(KeyCode::Char(','), KeyModifiers::none(), &mut stack));
    assert_eq!(stack.layers[1].name, "Background");
    assert_eq!(stack.active, 1);
    assert!(panel.handle_key(KeyCode::Char('x'), KeyModifiers::none(), &mut stack));
    assert_eq!(stack.layers.len(), 1);
    assert!(!panel.handle_key(KeyCode::Char('S'), KeyModifiers::none(), &mut stack));
    assert!(panel.handle_key(KeyCode::Char('S'), KeyModifiers::alt(), &mut stack));
    assert!(!stack.layers[0].casts_shadow);
    assert!(!panel.handle_key(KeyCode::Char('z'), KeyModifiers::none(), &mut stack));
}

#[test]
fn panel_groups_fold_and_navigate() {
    let mut stack = new_stack(4, 4);
    stack.add(4, 4);
    stack.add(4, 4);
    stack.add(4, 4);
    let mut panel = LayerPanel::new();
    assert!(!panel.handle_key(KeyCode::Tab, KeyModifiers::alt(), &mut stack));
    stack.active = 1;
    assert!(panel.handle_key(KeyCode::Char('g'), KeyModifiers::control(), &mut stack));
    assert_eq!(stack.groups.len(), 1);
    assert_eq!(stack.groups[0].name, "Group 1");
    stack.create_group(&[1, 2], "G".to_string());
    assert_eq!(stack.layers[2].group, Some(1));
    assert_eq!(stack.layers[1].group, Some(1));
    assert!(panel.handle_key(KeyCode::Left, KeyModifiers::alt(), &mut stack));
    assert!(stack.groups[1].collapsed);
    assert!(panel.handle_key(KeyCode::Right, KeyModifiers::alt(), &mut stack));
    assert!(!stack.groups[1].collapsed);
    assert!(panel.handle_key(KeyCode::Tab, KeyModifiers::alt(), &mut stack));
    assert_eq!(stack.active, 2);
    assert!(panel.handle_key(KeyCode::Tab, KeyModifiers::alt(), &mut stack));
    assert_eq!(stack.active, 3);
    assert!(panel.handle_key(KeyCode::Tab, KeyModifiers::alt(), &mut stack));
    assert_eq!(stack.active, 2);
    stack.active = 0;
    assert!(panel.handle_key(KeyCode::Tab, KeyModifiers::alt(), &mut stack));
    assert_eq!(stack.active, 1);
    let ctrl_shift = KeyModifiers::control().union(KeyModifiers::shift());
    assert!(panel.handle_key(KeyCode::Char('g'), ctrl_shift, &mut stack));
    assert_eq!(stack.groups.len(), 1);
    assert_eq!(stack.layers[1].group, None);
}

#[test]
fn test_handle_mouse_selects_correct_layer_with_content_area() {
    let mut stack = new_stack(10, 10);
    stack.add(10, 10);
    stack.active = 0;
    let mut panel = LayerPanel::new();
    let area = Area { x: 0, y: 5, width: 20, height: 10 };
    let row = 7;
    let col = 5;
    assert!(panel.handle_mouse(col, row, MouseKind::LeftDown, area, &mut stack));
    assert_eq!(stack.active, 1);
}

#[test]
fn panel_rows_show_group_headers_and_fold() {
    let mut stack = new_stack(4, 4);
    stack.add(4, 4);
    stack.add(4, 4);
    stack.create_group(&[1, 2], "G".to_string());
    assert_eq!(
        LayerPanel::rows(&stack),
        vec![PanelRow::GroupHeader(0), PanelRow::Layer(2), PanelRow::Layer(1), PanelRow::Layer(0)]
    );
    stack.toggle_group_collapsed(0);
    assert_eq!(LayerPanel::rows(&stack), vec![PanelRow::GroupHeader(0), PanelRow::Layer(1), PanelRow::Layer(0)]);
    let panel = LayerPanel::new();
    let area = Area { x: 0, y: 0, width: 20, height: 12 };
    // inner starts at row 1; the toolbar takes row 1; the header is row 2.
    assert_eq!(panel.layer_at_pos(5, 2, area, &stack), None);
    assert_eq!(panel.layer_at_pos(5, 3, area, &stack), Some(1));
    assert_eq!(panel.layer_at_pos(5, 4, area, &stack), Some(1));
    assert_eq!(panel.layer_at_pos(5, 5, area, &stack), Some(0));
    assert_eq!(panel.layer_at_pos(5, 7, area, &stack), None);
    assert_eq!(panel.layer_at_pos(0, 3, area, &stack), None);
}

#[test]
fn panel_layout_places_toolbar_and_scrolls() {
    let mut stack = new_stack(4, 4);
    for _ in 0..5 {
        stack.add(4, 4);
    }
    stack.active = 0;
    let mut panel = LayerPanel::new();
    let area = Area { x: 0, y: 0, width: 22, height: 6 };
    panel.layout(area, &stack);
    assert_eq!(panel.button_rects.len(), 5);
    assert_eq!(panel.button_rects[0], (LayerButton::New, Area { x: 1, y: 1, width: 4, height: 1 }));
    assert_eq!(panel.button_rects[4], (LayerButton::Link, Area { x: 17, y: 1, width: 4, height: 1 }));
    // six layers of two rows; the bottom one starts at row 10; three rows show.
    assert_eq!(panel.scroll, 9);
    stack.active = 5;
    panel.layout(area, &stack);
    assert_eq!(panel.scroll, 0);
    let mut stack2 = new_stack(4, 4);
    let mut p2 = LayerPanel::new();
    p2.layout(area, &stack2);
    assert!(p2.handle_mouse(2, 1, MouseKind::LeftDown, area, &mut stack2));
    assert_eq!(stack2.layers.len(), 2);
    assert!(p2.handle_mouse(18, 1, MouseKind::LeftDown, area, &mut stack2));
    assert_eq!(p2.link_pending, Some(1));
}

#[test]
fn panel_drag_reorders_layers() {
    let mut stack = new_stack(4, 4);
    stack.add(4, 4);
    stack.add(4, 4);
    let mut panel = LayerPanel::new();
    let area = Area { x: 0, y: 0, width: 20, height: 12 };
    // rows: layer 2 at 2-3, layer 1 at 4-5, layer 0 at 6-7 (screen rows).
    assert!(panel.handle_mouse(1, 2, MouseKind::LeftDown, area, &mut stack));
    assert_eq!(panel.drag_state, Some((2, 2)));
    assert!(panel.handle_mouse(5, 6, MouseKind::LeftDrag, area, &mut stack));
    assert_eq!(panel.drag_state, Some((2, 0)));
    assert_eq!(panel.drag_hover_row, Some(0));
    assert!(panel.handle_mouse(5, 6, MouseKind::LeftUp, area, &mut stack));
    assert_eq!(panel.drag_state, None);
    assert_eq!(stack.layers[0].name, "Layer 3");
    assert!(!panel.handle_mouse(5, 6, MouseKind::LeftUp, area, &mut stack));
    assert!(!panel.handle_mouse(5, 6, MouseKind::Other, area, &mut stack));
}

#[test]
fn keys_with_active_past_the_top() {
    let mut stack = new_stack(4, 4);
    stack.active = 3;
    let mut panel = LayerPanel::new();
    assert!(panel.handle_key(KeyCode::Enter, KeyModifiers::none(), &mut stack));
    assert!(stack.layers[0].visible);
    assert!(panel.handle_key(KeyCode::Char('L'), KeyModifiers::none(), &mut stack));
    assert_eq!(stack.layers.len(), 1);
    assert!(panel.handle_key(KeyCode::F(2), KeyModifiers::none(), &mut stack));
    assert_eq!(panel.renaming, Some(3));
    assert_eq!(panel.rename_buffer, "");
}
