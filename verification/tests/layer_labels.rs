use figby::layer_labels::{attr_label, header_label, opacity_percent_of, toolbar_label};
use figby::layer_panel::LayerPanel;
use figby::layers::{BlendMode, LayerStack};

fn no_icons() -> Vec<(String, String)> {
    Vec::new()
}

fn two_layers() -> LayerStack {
    let mut stack = LayerStack::new(4, 4);
    stack.add(4, 4);
    stack.layers[0].name = "Background".to_string();
    stack.layers[1].name = "Top".to_string();
    stack
}

#[test]
fn opacity_percent_rounds_to_nearest() {
    assert_eq!(opacity_percent_of(255), 100);
    assert_eq!(opacity_percent_of(0), 0);
    assert_eq!(opacity_percent_of(128), 50);
    assert_eq!(opacity_percent_of(191), 75);
    assert_eq!(opacity_percent_of(1), 0);
    assert_eq!(opacity_percent_of(2), 1);
}

#[test]
fn name_label_marks_active_layer() {
    let stack = two_layers();
    let panel = LayerPanel::new();
    let active = stack.active;
    let other = 1 - active;
    assert_eq!(panel.name_label(&stack, active, 30), format!("\u{283f} \u{203a} {}", stack.layers[active].name));
    assert_eq!(panel.name_label(&stack, other, 30), format!("\u{283f}   {}", stack.layers[other].name));
}

#[test]
fn name_label_cuts_long_names() {
    let mut stack = two_layers();
    stack.active = 0;
    stack.layers[1].name = "Mountains".to_string();
    let panel = LayerPanel::new();
    // A panel 10 wide leaves five cells for the name.
    assert_eq!(panel.name_label(&stack, 1, 10), "\u{283f}   Moun\u{2026}");
    // Never fewer than four.
    assert_eq!(panel.name_label(&stack, 1, 3), "\u{283f}   Mou\u{2026}");
}

#[test]
fn name_label_shows_rename_buffer() {
    let mut stack = two_layers();
    stack.active = 0;
    let mut panel = LayerPanel::new();
    panel.renaming = Some(1);
    panel.rename_buffer = "Sky".to_string();
    assert_eq!(panel.name_label(&stack, 1, 30), "\u{283f}   Sky\u{2588}");
}

#[test]
fn attr_label_wide_and_narrow() {
    let mut stack = two_layers();
    stack.layers[1].opacity = 128;
    stack.layers[1].blend_mode = BlendMode::Multiply;
    stack.layers[1].locked = true;
    assert_eq!(attr_label(&stack, 1, 20, &no_icons()), "V  L  50%  Multiply");
    stack.layers[1].visible = false;
    assert_eq!(attr_label(&stack, 1, 7, &no_icons()), "_L 50%");
}

#[test]
fn attr_label_uses_icons_and_link_mark() {
    let mut stack = two_layers();
    stack.layers[0].link = Some(0);
    let icons = vec![
        ("layer_visibility_on".to_string(), "*".to_string()),
        ("blend_normal".to_string(), "N".to_string()),
    ];
    assert_eq!(attr_label(&stack, 0, 20, &icons), "*  U  100%  N \u{1f517}");
}

#[test]
fn header_label_counts_members() {
    let mut stack = two_layers();
    let g = stack.create_group(&[0, 1], "Scene".to_string()).unwrap();
    assert_eq!(header_label(&stack, g), " \u{25bc} Scene (2)");
    stack.groups[g].collapsed = true;
    assert_eq!(header_label(&stack, g), " \u{25b6} Scene (2)");
}

#[test]
fn toolbar_label_cuts_each_button() {
    assert_eq!(toolbar_label(30, &no_icons()), " + New D Dup x Del G Grp \u{1f517} Li\u{2026}");
    assert_eq!(toolbar_label(20, &no_icons()), " + \u{2026} D \u{2026} x \u{2026} G \u{2026} \u{1f517} \u{2026}");
}

#[test]
fn list_lines_top_layer_first() {
    let mut stack = two_layers();
    stack.active = 1;
    let panel = LayerPanel::new();
    let lines = panel.list_lines(&stack, 30, 10, &no_icons());
    assert_eq!(
        lines,
        vec![
            "\u{283f} \u{203a} Top".to_string(),
            "V  U  100%  Normal".to_string(),
            "\u{283f}   Background".to_string(),
            "V  U  100%  Normal".to_string(),
        ]
    );
}

#[test]
fn list_lines_scrolled_and_cut() {
    let stack = two_layers();
    let mut panel = LayerPanel::new();
    panel.scroll = 1;
    let lines = panel.list_lines(&stack, 30, 2, &no_icons());
    assert_eq!(lines.len(), 2);
    assert_eq!(lines[0], "V  U  100%  Normal");
    assert_eq!(panel.scroll_marks(&stack, 2), (true, true));
    assert_eq!(panel.scroll_marks(&stack, 3), (true, false));
    panel.scroll = 0;
    assert_eq!(panel.scroll_marks(&stack, 4), (false, false));
}

#[test]
fn list_lines_folded_group_hides_its_top_layer() {
    let mut stack = two_layers();
    let g = stack.create_group(&[0, 1], "Scene".to_string()).unwrap();
    stack.groups[g].collapsed = true;
    stack.active = 1;
    let panel = LayerPanel::new();
    let lines = panel.list_lines(&stack, 30, 10, &no_icons());
    assert_eq!(
        lines,
        vec![
            " \u{25b6} Scene (2)".to_string(),
            "  \u{283f}   Background".to_string(),
            "  V  U  100%  Normal".to_string(),
        ]
    );
}
