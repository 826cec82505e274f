use figby::canvas::{CanvasBuffer, CanvasCell, Color};
use figby::layers::{blend_mode_color, BlendMode, Layer, LayerMask, LayerStack};


fn make_cell(ch: char) -> CanvasCell {
    CanvasCell {
        ch,
        fg: None,
        bg: None,
        height: None,
    }
}

fn make_stack(w: usize, h: usize) -> LayerStack {
    LayerStack::new(w, h)
}

#[test]
fn test_new_layer() {
    let mut stack = make_stack(10, 10);
    assert_eq!(stack.len(), 1);
    assert_eq!(stack.active, 0);
    stack.add(10, 10);
    assert_eq!(stack.len(), 2);
    assert_eq!(stack.active, 1);
}

#[test]
fn test_delete_layer() {
    let mut stack = make_stack(10, 10);
    stack.add(10, 10);
    stack.add(10, 10);
    assert_eq!(stack.len(), 3);
    stack.active = 1;
    assert!(stack.delete(1));
    assert_eq!(stack.len(), 2);
}

#[test]
fn test_delete_cannot_remove_last() {
    let mut stack = make_stack(10, 10);
    assert!(!stack.delete(0));
    assert_eq!(stack.len(), 1);
}

#[test]
fn test_duplicate_layer() {
    let mut stack = make_stack(10, 10);
    stack.layers[0].buffer.set(0, 0, make_cell('X'));
    assert!(stack.duplicate(0));
    assert_eq!(stack.len(), 2);
    assert_eq!(stack.layers[1].buffer.get(0, 0).unwrap().ch, 'X');
    stack.layers[1].buffer.set(0, 0, make_cell('Y'));
    assert_eq!(stack.layers[0].buffer.get(0, 0).unwrap().ch, 'X');
}

#[test]
fn test_reorder_layers() {
    let mut stack = make_stack(10, 10);
    stack.add(10, 10);
    stack.add(10, 10);
    stack.layers[0].name = "A".to_string();
    stack.layers[1].name = "B".to_string();
    stack.layers[2].name = "C".to_string();
    assert!(stack.move_up(0));
    assert_eq!(stack.layers[0].name, "B");
    assert_eq!(stack.layers[1].name, "A");
    assert!(stack.move_down(1));
    assert_eq!(stack.layers[0].name, "A");
    assert_eq!(stack.layers[1].name, "B");
}

#[test]
fn test_merge_down() {
    let mut stack = make_stack(5, 5);
    stack.add(5, 5);
    stack.layers[0].buffer.set(0, 0, make_cell('A'));
    stack.layers[1].buffer.set(1, 1, make_cell('B'));
    assert!(stack.merge_down(1));
    assert_eq!(stack.len(), 1);
    assert_eq!(stack.layers[0].buffer.get(0, 0).unwrap().ch, 'A');
    assert_eq!(stack.layers[0].buffer.get(1, 1).unwrap().ch, 'B');
}

#[test]
fn test_merge_down_locked_top_noop() {
    let mut stack = make_stack(5, 5);
    stack.add(5, 5);
    stack.layers[1].locked = true;
    assert!(!stack.merge_down(1));
    assert_eq!(stack.len(), 2);
}

#[test]
fn test_composite_visibility() {
    let mut stack = make_stack(3, 3);
    stack.add(3, 3);
    stack.layers[0].buffer.set(0, 0, make_cell('A'));
    stack.layers[1].buffer.set(1, 1, make_cell('B'));
    stack.layers[1].visible = false;
    let comp = stack.composite();
    assert_eq!(comp.get(0, 0).unwrap().ch, 'A');
    assert_eq!(comp.get(1, 1).unwrap().ch, ' ');
}

#[test]
fn test_composite_order() {
    let mut stack = make_stack(3, 3);
    stack.add(3, 3);
    stack.layers[0].buffer.set(0, 0, make_cell('A'));
    stack.layers[1].buffer.set(0, 0, make_cell('B'));
    let comp = stack.composite();
    assert_eq!(comp.get(0, 0).unwrap().ch, 'B');
}

#[test]
fn test_composite_opacity() {
    let mut stack = make_stack(3, 3);
    stack.add(3, 3);
    stack.layers[0].buffer.set(0, 0, make_cell('A'));
    stack.layers[1].buffer.set(0, 0, make_cell('B'));
    stack.layers[1].opacity = 128;
    let comp = stack.composite();
    assert_eq!(comp.get(0, 0).unwrap().ch, 'B');
}

#[test]
fn test_active_mut_independence() {
    let mut stack = make_stack(5, 5);
    stack.add(5, 5);
    stack.active = 1;
    stack.active_layer_mut().buffer.set(0, 0, make_cell('X'));
    assert_eq!(stack.layers[1].buffer.get(0, 0).unwrap().ch, 'X');
    assert_eq!(stack.layers[0].buffer.get(0, 0).unwrap().ch, ' ');
}

#[test]
fn test_resize_all() {
    let mut stack = make_stack(5, 5);
    stack.add(5, 5);
    stack.resize_all(10, 10);
    assert_eq!(stack.layers[0].buffer.width(), 10);
    assert_eq!(stack.layers[0].buffer.height(), 10);
    assert_eq!(stack.layers[1].buffer.width(), 10);
}

#[test]
fn test_composite_empty_stack() {
    let mut stack = make_stack(1, 1);
    stack.layers.clear();
    let comp = stack.composite();
    assert_eq!(comp.width(), 1);
    assert_eq!(comp.height(), 1);
}

#[test]
fn test_toggle_visibility() {
    let mut stack = make_stack(5, 5);
    assert!(stack.layers[0].visible);
    stack.toggle_visibility(0);
    assert!(!stack.layers[0].visible);
    stack.toggle_visibility(0);
    assert!(stack.layers[0].visible);
}

#[test]
fn test_toggle_lock() {
    let mut stack = make_stack(5, 5);
    assert!(!stack.layers[0].locked);
    stack.toggle_lock(0);
    assert!(stack.layers[0].locked);
    stack.toggle_lock(0);
    assert!(!stack.layers[0].locked);
}

#[test]
fn test_set_opacity() {
    let mut stack = make_stack(5, 5);
    stack.set_opacity(0, 128);
    assert_eq!(stack.layers[0].opacity, 128);
    stack.set_opacity(0, 255);
    assert_eq!(stack.layers[0].opacity, 255);
}

#[test]
fn test_move_up_edge() {
    let mut stack = make_stack(5, 5);
    assert!(!stack.move_up(0));
}

#[test]
fn test_move_down_edge() {
    let mut stack = make_stack(5, 5);
    assert!(!stack.move_down(0));
}

#[test]
fn test_reorder_invalid() {
    let mut stack = make_stack(5, 5);
    stack.add(5, 5);
    assert!(!stack.reorder(0, 0));
}

#[test]
fn test_with_capacity() {
    let stack = LayerStack::with_capacity(10, 10, 3);
    assert_eq!(stack.len(), 3);
    assert_eq!(stack.layers[0].name, "Background");
    assert_eq!(stack.layers[1].name, "Layer 2");
    assert_eq!(stack.layers[2].name, "Layer 3");
}

// --- Blend mode tests ---

fn rgb_cell(ch: char, r: u8, g: u8, b: u8) -> CanvasCell {
    CanvasCell {
        ch,
        fg: Some(Color::Rgb(r, g, b)),
        bg: None,
        height: None,
    }
}

#[test]
fn test_blend_multiply() {
    let top = rgb_cell('X', 200, 100, 50);
    let bottom = rgb_cell('Y', 100, 200, 50);
    let result = blend_mode_color(top.fg, bottom.fg, BlendMode::Multiply);
    match result {
        Some(Color::Rgb(r, g, b)) => {
            assert_eq!(r, 78);
            assert_eq!(g, 78);
            assert_eq!(b, 9);
        }
        _ => panic!("expected Some(Color::Rgb)"),
    }
}

#[test]
fn test_blend_overlay_dark() {
    let top = rgb_cell('X', 200, 50, 50);
    let bottom = rgb_cell('Y', 50, 100, 150);
    let result = blend_mode_color(top.fg, bottom.fg, BlendMode::Overlay);
    match result {
        Some(Color::Rgb(r, g, b)) => {
            assert_eq!(r, 78);
            assert_eq!(g, 39);
            assert_eq!(b, 87);
        }
        _ => panic!("expected Some(Color::Rgb)"),
    }
}

#[test]
fn test_blend_overlay_light() {
    let top = rgb_cell('X', 200, 50, 50);
    let bottom = rgb_cell('Y', 200, 100, 50);
    let result = blend_mode_color(top.fg, bottom.fg, BlendMode::Overlay);
    match result {
        Some(Color::Rgb(r, g, b)) => {
            assert_eq!(r, 232);
            assert_eq!(g, 39);
            assert_eq!(b, 19);
        }
        _ => panic!("expected Some(Color::Rgb)"),
    }
}

#[test]
fn test_blend_screen() {
    let top = rgb_cell('X', 200, 100, 50);
    let bottom = rgb_cell('Y', 100, 200, 50);
    let result = blend_mode_color(top.fg, bottom.fg, BlendMode::Screen);
    match result {
        Some(Color::Rgb(r, g, b)) => {
            assert_eq!(r, 222);
            assert_eq!(g, 222);
            assert_eq!(b, 91);
        }
        _ => panic!("expected Some(Color::Rgb)"),
    }
}

#[test]
fn test_blend_add() {
    let top = rgb_cell('X', 200, 100, 200);
    let bottom = rgb_cell('Y', 100, 200, 50);
    let result = blend_mode_color(top.fg, bottom.fg, BlendMode::Add);
    match result {
        Some(Color::Rgb(r, g, b)) => {
            assert_eq!(r, 255);
            assert_eq!(g, 255);
            assert_eq!(b, 250);
        }
        _ => panic!("expected Some(Color::Rgb)"),
    }
}

#[test]
fn test_blend_subtract() {
    let top = rgb_cell('X', 200, 100, 50);
    let bottom = rgb_cell('Y', 100, 200, 50);
    let result = blend_mode_color(top.fg, bottom.fg, BlendMode::Subtract);
    match result {
        Some(Color::Rgb(r, g, b)) => {
            assert_eq!(r, 0);
            assert_eq!(g, 100);
            assert_eq!(b, 0);
        }
        _ => panic!("expected Some(Color::Rgb)"),
    }
}

#[test]
fn test_composite_blend_mode() {
    let mut stack = make_stack(3, 3);
    stack.add(3, 3);
    stack.layers[0]
        .buffer
        .set(0, 0, rgb_cell('A', 200, 100, 50));
    stack.layers[1]
        .buffer
        .set(0, 0, rgb_cell('B', 100, 200, 50));
    stack.layers[1].blend_mode = BlendMode::Multiply;
    let comp = stack.composite();
    let cell = comp.get(0, 0).unwrap();
    assert_eq!(cell.ch, 'B');
    match cell.fg {
        Some(Color::Rgb(r, g, b)) => {
            assert_eq!(r, 78);
            assert_eq!(g, 78);
            assert_eq!(b, 9);
        }
        _ => panic!("expected Some(Color::Rgb)"),
    }
}

#[test]
fn test_blend_mode_cycle() {
    let mut mode = BlendMode::Normal;
    mode = mode.next();
    assert_eq!(mode, BlendMode::Multiply);
    mode = mode.next();
    assert_eq!(mode, BlendMode::Overlay);
    mode = mode.next();
    assert_eq!(mode, BlendMode::Screen);
    mode = mode.next();
    assert_eq!(mode, BlendMode::Add);
    mode = mode.next();
    assert_eq!(mode, BlendMode::Subtract);
    mode = mode.next();
    assert_eq!(mode, BlendMode::Normal);
    // prev cycle
    mode = mode.prev();
    assert_eq!(mode, BlendMode::Subtract);
    mode = mode.prev();
    assert_eq!(mode, BlendMode::Add);
    mode = mode.prev();
    assert_eq!(mode, BlendMode::Screen);
    mode = mode.prev();
    assert_eq!(mode, BlendMode::Overlay);
    mode = mode.prev();
    assert_eq!(mode, BlendMode::Multiply);
    mode = mode.prev();
    assert_eq!(mode, BlendMode::Normal);
}

#[test]
fn test_set_blend_mode() {
    let mut stack = make_stack(5, 5);
    assert_eq!(stack.layers[0].blend_mode, BlendMode::Normal);
    stack.set_blend_mode(0, BlendMode::Multiply);
    assert_eq!(stack.layers[0].blend_mode, BlendMode::Multiply);
    stack.set_blend_mode(0, BlendMode::Overlay);
    assert_eq!(stack.layers[0].blend_mode, BlendMode::Overlay);
}

#[test]
fn test_blend_mode_icon_key() {
    assert_eq!(BlendMode::Normal.icon_key(), "blend_normal");
    assert_eq!(BlendMode::Multiply.icon_key(), "blend_multiply");
    assert_eq!(BlendMode::Overlay.icon_key(), "blend_overlay");
    assert_eq!(BlendMode::Screen.icon_key(), "blend_screen");
    assert_eq!(BlendMode::Add.icon_key(), "blend_add");
    assert_eq!(BlendMode::Subtract.icon_key(), "blend_subtract");
}

#[test]
fn test_blend_mode_display_name() {
    assert_eq!(BlendMode::Normal.display_name(), "Normal");
    assert_eq!(BlendMode::Multiply.display_name(), "Multiply");
    assert_eq!(BlendMode::Overlay.display_name(), "Overlay");
    assert_eq!(BlendMode::Screen.display_name(), "Screen");
    assert_eq!(BlendMode::Add.display_name(), "Add");
    assert_eq!(BlendMode::Subtract.display_name(), "Subtract");
}

#[test]
fn test_blend_mode_normal_returns_top() {
    let top = rgb_cell('X', 100, 150, 200);
    let bottom = rgb_cell('Y', 50, 100, 150);
    let result = blend_mode_color(top.fg, bottom.fg, BlendMode::Normal);
    assert_eq!(result, top.fg);
}

#[test]
fn test_composite_blend_mode_with_opacity() {
    let mut stack = make_stack(3, 3);
    stack.add(3, 3);
    stack.layers[0]
        .buffer
        .set(0, 0, rgb_cell('A', 200, 100, 50));
    stack.layers[1]
        .buffer
        .set(0, 0, rgb_cell('B', 100, 200, 50));
    stack.layers[1].blend_mode = BlendMode::Multiply;
    stack.layers[1].opacity = 128;
    let comp = stack.composite();
    let cell = comp.get(0, 0).unwrap();
    assert_eq!(cell.ch, 'B');
    // With opacity=128, result is lerp between bottom and multiply blend
    match cell.fg {
        Some(Color::Rgb(r, g, b)) => {
            assert_eq!(r, 139);
            assert_eq!(g, 89);
            assert_eq!(b, 29);
        }
        _ => panic!("expected Some(Color::Rgb)"),
    }
}

// --- Layer group tests ---

#[test]
fn test_create_group() {
    let mut stack = make_stack(10, 10);
    stack.add(10, 10);
    stack.add(10, 10);
    let group_idx = stack.create_group(&[0, 1], "My Group".to_string());
    assert!(group_idx.is_some());
    let g = group_idx.unwrap();
    assert_eq!(stack.groups.len(), 1);
    assert_eq!(stack.groups[g].name, "My Group");
    assert!(!stack.groups[g].collapsed);
    assert_eq!(stack.layers[0].group, Some(g));
    assert_eq!(stack.layers[1].group, Some(g));
    assert!(stack.layers[2].group.is_none());
}

#[test]
fn test_remove_group() {
    let mut stack = make_stack(10, 10);
    stack.add(10, 10);
    let g = stack.create_group(&[0, 1], "G".to_string()).unwrap();
    assert!(stack.remove_group(g));
    assert!(stack.layers[0].group.is_none());
    assert!(stack.layers[1].group.is_none());
    assert_eq!(stack.groups.len(), 0);
}

#[test]
fn test_toggle_group_collapsed() {
    let mut stack = make_stack(10, 10);
    let g = stack.create_group(&[0], "G".to_string()).unwrap();
    assert!(!stack.groups[g].collapsed);
    assert!(stack.toggle_group_collapsed(g));
    assert!(stack.groups[g].collapsed);
    assert!(stack.toggle_group_collapsed(g));
    assert!(!stack.groups[g].collapsed);
}

// --- Layer link tests ---

#[test]
fn test_link_layers() {
    let mut stack = make_stack(10, 10);
    stack.add(10, 10);
    stack.add(10, 10);
    let link_idx = stack.link_layers(&[0, 1]);
    assert!(link_idx.is_some());
    let l = link_idx.unwrap();
    assert_eq!(stack.links.len(), 1);
    assert_eq!(stack.layers[0].link, Some(l));
    assert_eq!(stack.layers[1].link, Some(l));
    assert!(stack.layers[2].link.is_none());
}

#[test]
fn test_link_layers_requires_at_least_two() {
    let mut stack = make_stack(10, 10);
    assert!(stack.link_layers(&[0]).is_none());
    assert!(stack.link_layers(&[]).is_none());
    assert!(stack.links.is_empty());
}

#[test]
fn test_link_layers_invalid_index() {
    let mut stack = make_stack(10, 10);
    assert!(stack.link_layers(&[0, 5]).is_none());
    assert!(stack.links.is_empty());
}

#[test]
fn test_unlink_layers() {
    let mut stack = make_stack(10, 10);
    stack.add(10, 10);
    let l = stack.link_layers(&[0, 1]).unwrap();
    assert!(stack.unlink_layers(l));
    assert!(stack.layers[0].link.is_none());
    assert!(stack.layers[1].link.is_none());
    assert!(stack.links.is_empty());
}

#[test]
fn test_link_index_shifted_after_unlink() {
    let mut stack = make_stack(10, 10);
    stack.add(10, 10);
    stack.add(10, 10);
    stack.add(10, 10);
    let l0 = stack.link_layers(&[0, 1]).unwrap();
    let l1 = stack.link_layers(&[2, 3]).unwrap();
    assert_eq!(l0, 0);
    assert_eq!(l1, 1);
    assert!(stack.unlink_layers(l0));
    assert_eq!(stack.layers[2].link, Some(0));
    assert_eq!(stack.layers[3].link, Some(0));
}

#[test]
fn test_relinking_moves_layer_out_of_old_link() {
    let mut stack = make_stack(10, 10);
    stack.add(10, 10);
    stack.add(10, 10);
    stack.link_layers(&[0, 1]).unwrap();
    let new_link = stack.link_layers(&[0, 2]).unwrap();
    assert_eq!(stack.layers[1].link, None, "layer 1 should be unlinked");
    assert_eq!(stack.layers[0].link, Some(new_link));
    assert_eq!(stack.layers[2].link, Some(new_link));
    assert_eq!(stack.links.len(), 1, "old (now-empty) link should be gone");
}

#[test]
fn test_toggle_visibility_propagates_to_linked_layers() {
    let mut stack = make_stack(10, 10);
    stack.add(10, 10);
    stack.link_layers(&[0, 1]);
    assert!(stack.layers[0].visible);
    assert!(stack.layers[1].visible);
    stack.toggle_visibility(0);
    assert!(!stack.layers[0].visible);
    assert!(
        !stack.layers[1].visible,
        "linked layer's visibility should follow"
    );
    stack.toggle_visibility(1);
    assert!(stack.layers[0].visible);
    assert!(stack.layers[1].visible);
}

#[test]
fn test_toggle_lock_propagates_to_linked_layers() {
    let mut stack = make_stack(10, 10);
    stack.add(10, 10);
    stack.link_layers(&[0, 1]);
    assert!(!stack.layers[0].locked);
    stack.toggle_lock(0);
    assert!(stack.layers[0].locked);
    assert!(stack.layers[1].locked, "linked layer's lock should follow");
}

#[test]
fn test_toggle_visibility_unlinked_layer_does_not_propagate() {
    let mut stack = make_stack(10, 10);
    stack.add(10, 10);
    stack.toggle_visibility(0);
    assert!(!stack.layers[0].visible);
    assert!(stack.layers[1].visible);
}


#[test]
fn test_rename_layer() {
    let mut stack = make_stack(10, 10);
    assert!(stack.rename(0, "Sketch".to_string()));
    assert_eq!(stack.layers[0].name, "Sketch");
}

#[test]
fn test_rename_layer_nonexistent() {
    let mut stack = make_stack(10, 10);
    assert!(!stack.rename(5, "X".to_string()));
}

#[test]
fn test_rename_layer_empty_name_noop() {
    let mut stack = make_stack(10, 10);
    assert!(!stack.rename(0, "   ".to_string()));
    assert_eq!(stack.layers[0].name, "Background");
}




#[test]
fn test_rename_group() {
    let mut stack = make_stack(10, 10);
    let g = stack.create_group(&[0], "Old".to_string()).unwrap();
    assert!(stack.rename_group(g, "New".to_string()));
    assert_eq!(stack.groups[g].name, "New");
}

#[test]
fn test_group_of_layer() {
    let mut stack = make_stack(10, 10);
    stack.add(10, 10);
    let g = stack.create_group(&[1], "G".to_string()).unwrap();
    assert_eq!(stack.group_of_layer(1), Some(g));
    assert_eq!(stack.group_of_layer(0), None);
}

#[test]
fn test_layers_in_group() {
    let mut stack = make_stack(10, 10);
    stack.add(10, 10);
    stack.add(10, 10);
    let g = stack.create_group(&[0, 2], "G".to_string()).unwrap();
    let members = stack.layers_in_group(g);
    assert_eq!(members.len(), 2);
    assert!(members.contains(&0));
    assert!(members.contains(&2));
}

#[test]
fn test_create_group_empty_indices() {
    let mut stack = make_stack(10, 10);
    assert!(stack.create_group(&[], "Empty".to_string()).is_none());
    assert_eq!(stack.groups.len(), 0);
}

#[test]
fn test_create_group_invalid_index() {
    let mut stack = make_stack(10, 10);
    assert!(stack.create_group(&[0, 5], "Bad".to_string()).is_none());
    assert_eq!(stack.groups.len(), 0);
}

#[test]
fn test_remove_group_nonexistent() {
    let mut stack = make_stack(10, 10);
    assert!(!stack.remove_group(0));
}

#[test]
fn test_toggle_group_collapsed_nonexistent() {
    let mut stack = make_stack(10, 10);
    assert!(!stack.toggle_group_collapsed(0));
}

#[test]
fn test_rename_group_nonexistent() {
    let mut stack = make_stack(10, 10);
    assert!(!stack.rename_group(0, "X".to_string()));
}

#[test]
fn test_group_preserved_after_delete() {
    let mut stack = make_stack(10, 10);
    stack.add(10, 10);
    stack.add(10, 10);
    let g = stack.create_group(&[0, 1], "G".to_string()).unwrap();
    stack.delete(0);
    assert_eq!(stack.layers[0].group, Some(g));
    assert_eq!(stack.groups.len(), 1);
}

#[test]
fn test_group_index_shifted_after_remove() {
    let mut stack = make_stack(10, 10);
    stack.add(10, 10);
    stack.add(10, 10);
    let g0 = stack.create_group(&[0], "G0".to_string()).unwrap();
    let g1 = stack.create_group(&[1, 2], "G1".to_string()).unwrap();
    assert_eq!(g0, 0);
    assert_eq!(g1, 1);
    stack.remove_group(0);
    assert_eq!(stack.layers[0].group, None);
    assert_eq!(stack.layers[1].group, Some(0));
    assert_eq!(stack.layers[2].group, Some(0));
}

// --- Layer mask tests ---

#[test]
fn test_create_mask() {
    let mut stack = make_stack(10, 10);
    assert!(stack.layers[0].mask.is_none());
    assert!(stack.create_mask(0));
    assert!(stack.layers[0].mask.is_some());
    let mask = stack.layers[0].mask.as_ref().unwrap();
    assert!(mask.enabled);
    assert_eq!(mask.buffer.width(), 10);
    assert_eq!(mask.buffer.height(), 10);
}

#[test]
fn test_create_mask_on_nonexistent_layer() {
    let mut stack = make_stack(10, 10);
    assert!(!stack.create_mask(5));
}

#[test]
fn test_create_mask_twice_noop() {
    let mut stack = make_stack(10, 10);
    assert!(stack.create_mask(0));
    assert!(!stack.create_mask(0));
}

#[test]
fn test_remove_mask() {
    let mut stack = make_stack(10, 10);
    stack.create_mask(0);
    assert!(stack.remove_mask(0));
    assert!(stack.layers[0].mask.is_none());
}

#[test]
fn test_remove_mask_nonexistent() {
    let mut stack = make_stack(10, 10);
    assert!(!stack.remove_mask(0));
}

#[test]
fn test_toggle_mask() {
    let mut stack = make_stack(10, 10);
    assert!(stack.toggle_mask(0));
    assert!(stack.layers[0].mask.is_some());
    assert!(stack.toggle_mask(0));
    assert!(stack.layers[0].mask.is_none());
}

#[test]
fn test_layer_mask_toggle_enabled() {
    let mut stack = make_stack(10, 10);
    stack.create_mask(0);
    assert!(stack.layers[0].mask.as_ref().unwrap().enabled);
    assert!(stack.toggle_mask_enabled(0));
    assert!(!stack.layers[0].mask.as_ref().unwrap().enabled);
    assert!(stack.toggle_mask_enabled(0));
    assert!(stack.layers[0].mask.as_ref().unwrap().enabled);
}

#[test]
fn test_mask_paint() {
    let mut stack = make_stack(10, 10);
    stack.create_mask(0);
    let cell = make_cell('X');
    stack.set_mask_pixel(0, 3, 4, cell);
    let got = stack.get_mask_pixel(0, 3, 4);
    assert!(got.is_some());
    assert_eq!(got.unwrap().ch, 'X');
}

#[test]
fn test_set_mask_pixel_out_of_bounds() {
    let mut stack = make_stack(5, 5);
    stack.create_mask(0);
    stack.set_mask_pixel(0, 100, 100, make_cell('X'));
}

#[test]
fn test_set_mask_pixel_no_mask() {
    let mut stack = make_stack(5, 5);
    stack.set_mask_pixel(0, 0, 0, make_cell('X'));
}

#[test]
fn test_composite_with_mask() {
    let mut stack = make_stack(3, 3);
    stack.layers[0].buffer.set(0, 0, make_cell('A'));
    stack.create_mask(0);
    // Mask is all spaces by default -> layer is fully hidden
    let comp = stack.composite();
    assert_eq!(comp.get(0, 0).unwrap().ch, ' ');
}

#[test]
fn test_composite_with_mask_painted() {
    let mut stack = make_stack(3, 3);
    stack.layers[0].buffer.set(0, 0, make_cell('A'));
    stack.create_mask(0);
    // Paint mask pixel at (0,0) to reveal it
    stack.set_mask_pixel(0, 0, 0, make_cell('▓'));
    let comp = stack.composite();
    assert_eq!(comp.get(0, 0).unwrap().ch, 'A');
}

#[test]
fn test_composite_with_mask_disabled() {
    let mut stack = make_stack(3, 3);
    stack.layers[0].buffer.set(0, 0, make_cell('A'));
    stack.create_mask(0);
    stack.layers[0].mask.as_mut().unwrap().enabled = false;
    let comp = stack.composite();
    assert_eq!(comp.get(0, 0).unwrap().ch, 'A');
}

#[test]
fn test_composite_two_layers_with_mask() {
    let mut stack = make_stack(3, 3);
    stack.add(3, 3);
    // Bottom layer has content at (0,0) and (1,1)
    stack.layers[0].buffer.set(0, 0, make_cell('A'));
    stack.layers[0].buffer.set(1, 1, make_cell('B'));
    // Top layer has content at (0,0) with mask revealing only part
    stack.layers[1].buffer.set(0, 0, make_cell('C'));
    stack.create_mask(1);
    stack.set_mask_pixel(1, 0, 0, make_cell('▓'));
    let comp = stack.composite();
    // (0,0): top layer visible through mask => 'C'
    assert_eq!(comp.get(0, 0).unwrap().ch, 'C');
    // (1,1): only bottom layer => 'B'
    assert_eq!(comp.get(1, 1).unwrap().ch, 'B');
}

// ── Frozen frames tests ──────────────────────────────────

#[test]
fn test_add_frozen_frames_to_layer_stack() {
    let mut stack = make_stack(5, 5);
    let initial_count = stack.len();

    let mut buf_a = CanvasBuffer::new(5, 5);
    buf_a.set(0, 0, make_cell('A'));
    let mut buf_b = CanvasBuffer::new(5, 5);
    buf_b.set(1, 1, make_cell('B'));
    let mut buf_c = CanvasBuffer::new(5, 5);
    buf_c.set(2, 2, make_cell('C'));

    let indices = stack.add_frozen_frames(vec![buf_a, buf_b, buf_c], "snapshot");
    assert_eq!(indices.len(), 3);
    assert_eq!(stack.len(), initial_count + 3);

    // Verify names
    assert_eq!(stack.layers[initial_count].name, "snapshot frame 0");
    assert_eq!(stack.layers[initial_count + 1].name, "snapshot frame 1");
    assert_eq!(stack.layers[initial_count + 2].name, "snapshot frame 2");

    // Verify independent content
    assert_eq!(
        stack.layers[initial_count].buffer.get(0, 0).unwrap().ch,
        'A'
    );
    assert_eq!(
        stack.layers[initial_count + 1].buffer.get(1, 1).unwrap().ch,
        'B'
    );
    assert_eq!(
        stack.layers[initial_count + 2].buffer.get(2, 2).unwrap().ch,
        'C'
    );

    // Verify independence: mutating one doesn't affect others
    stack
        .layers
        .get_mut(initial_count)
        .unwrap()
        .buffer
        .set(0, 0, make_cell(' '));
    assert_eq!(
        stack.layers[initial_count + 1].buffer.get(1, 1).unwrap().ch,
        'B'
    );
}

#[test]
fn layer_buffer_mut_edits_the_layer() {
    let mut layer = Layer::new(4, 3, "L".to_string());
    let cell = CanvasCell { ch: 'x', ..CanvasCell::default() };
    layer.buffer_mut().set(2, 1, cell);
    assert_eq!(layer.buffer().get(2, 1).map(|c| c.ch), Some('x'));
    let mut mask = LayerMask::new(2, 2);
    mask.buffer_mut().set(0, 0, cell);
    assert_eq!(mask.buffer().get(0, 0).map(|c| c.ch), Some('x'));
    assert!(mask.enabled);
}

#[test]
fn blend_mode_parses_from_text() {
    assert_eq!("Multiply".parse::<BlendMode>(), Ok(BlendMode::Multiply));
    assert_eq!("screen".parse::<BlendMode>(), Ok(BlendMode::Screen));
    assert_eq!("nonsense".parse::<BlendMode>(), Ok(BlendMode::Normal));
}
