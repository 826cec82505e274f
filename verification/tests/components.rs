use figby::components::export::{ExportComponent, ExportReply};
use figby::components::file_ops::{FileOpsComponent, FileOpsReply};
use figby::components::font_editor::FontEditorComponent;
use figby::brush::BrushShape;
use figby::canvas::{CanvasBuffer, CanvasCell, Color};
use figby::components::canvas::{compose_lit, lighting_masks};
use figby::image_editor::ImageEffect;
use figby::layers::LayerStack;
use figby::components::image_editor::ImageEditorComponent;
use figby::components::status_bar::{fit_items, item_widths, status_layout, StatusLayout};
use figby::export::ExportError;
use figby::components::toolbox::ToolboxComponent;
use figby::events::{FontEditorEvent, ToolboxEvent};
use figby::export::ExportMode;
use figby::file_ops::{FileOpsMode, RecentFiles};
use figby::font_editor::FontEditorView;
use figby::keys::{KeyCode, KeyModifiers};

#[test]
fn export_component_requests_export_on_enter() {
    let mut c = ExportComponent::new();
    assert_eq!(c.handle_key(KeyCode::Enter, false), None);
    c.dialog.enter_export(ExportMode::Txt);
    assert_eq!(c.handle_key(KeyCode::Char('x'), false), Some(ExportReply::Handled));
    assert_eq!(
        c.handle_key(KeyCode::Enter, false),
        Some(ExportReply::ExportRequested(ExportMode::Txt))
    );
}

#[test]
fn file_ops_component_reports_finished_mode() {
    let mut c = FileOpsComponent::new(RecentFiles::new());
    assert_eq!(c.handle_key(KeyCode::Enter, false), None);
    c.enter_save_as(Some("x"));
    assert_eq!(c.selected_path(), "x.flf");
    assert_eq!(c.handle_key(KeyCode::Enter, false), Some(FileOpsReply::SaveAsRequested));
    c.enter_open(&["/r.flf".to_string()]);
    c.handle_paste("abc");
    assert_eq!(c.dialog.path_buffer, "abc");
    assert_eq!(c.handle_key(KeyCode::Esc, false), Some(FileOpsReply::OpenRequested));
    assert_eq!(c.dialog.mode, FileOpsMode::Idle);
}

#[test]
fn font_editor_component_reports_view() {
    let mut c = FontEditorComponent::new();
    assert_eq!(c.area_width, 80);
    c.set_area_width(100);
    assert_eq!(c.area_width, 100);
    assert_eq!(
        c.handle_key(KeyCode::Char('H'), KeyModifiers::none()),
        Some(FontEditorEvent::Changed(FontEditorView::HeaderEditor))
    );
    assert_eq!(c.handle_key(KeyCode::Char('%'), KeyModifiers::none()), None);
    assert!(c.selected_char().is_none());
}

#[test]
fn toolbox_keys_change_brush_and_tool() {
    let mut t = ToolboxComponent::new(vec![Some('b'), Some('e'), None, Some('f')]);
    assert_eq!(t.handle_key(KeyCode::Char('['), KeyModifiers::none()), Some(ToolboxEvent::BrushChanged));
    assert_eq!(t.brush.size, 2);
    assert_eq!(t.handle_key(KeyCode::Char(']'), KeyModifiers::control()), Some(ToolboxEvent::BrushChanged));
    assert_eq!(t.brush.size, 3);
    t.handle_key(KeyCode::Char('\''), KeyModifiers::none());
    assert_eq!(t.brush.density, 36);
    t.handle_key(KeyCode::Char(';'), KeyModifiers::none());
    t.handle_key(KeyCode::Char(';'), KeyModifiers::none());
    assert_eq!(t.brush.density, 34);
    t.handle_key(KeyCode::Char('\\'), KeyModifiers::none());
    assert_eq!(t.brush.shape, BrushShape::Circle);
    assert_eq!(t.handle_key(KeyCode::Char('E'), KeyModifiers::none()), Some(ToolboxEvent::ToolSelected));
    assert_eq!(t.selected_tool, 1);
    assert_eq!(t.handle_key(KeyCode::Char('f'), KeyModifiers::control()), None);
    assert_eq!(t.selected_tool, 1);
    assert_eq!(t.handle_key(KeyCode::Char('f'), KeyModifiers::shift()), Some(ToolboxEvent::ToolSelected));
    assert_eq!(t.selected_tool, 3);
    assert_eq!(t.handle_key(KeyCode::Char('z'), KeyModifiers::none()), None);
    assert_eq!(t.handle_key(KeyCode::Enter, KeyModifiers::none()), None);
}

#[test]
fn status_bar_drops_rightmost_droppable_items() {
    let widths = vec![8, 6, 10, 5, 7, 9];
    let keep = vec![true, true, true, false, false, false];
    // all: 45 + 15 bars = 60
    assert_eq!(fit_items(&widths, &keep, 60), vec![0, 1, 2, 3, 4, 5]);
    assert_eq!(fit_items(&widths, &keep, 50), vec![0, 1, 2, 3, 4]);
    assert_eq!(fit_items(&widths, &keep, 30), vec![0, 1, 2]);
    assert_eq!(fit_items(&widths, &keep, 20), vec![0, 1, 2]);
    assert_eq!(status_layout(&widths, &keep, 9), StatusLayout::Hidden);
    assert_eq!(status_layout(&widths, &keep, 21), StatusLayout::ModeOnly(19));
    assert_eq!(status_layout(&widths, &keep, 40), StatusLayout::Items(vec![0, 1, 2, 3]));
}

#[test]
fn lighting_masks_follow_visible_layers() {
    let mut stack = LayerStack::new(3, 2);
    stack.add(2, 2);
    let a = CanvasCell { ch: 'a', ..CanvasCell::default() };
    let colored = CanvasCell { fg: Some(Color::Red), ..CanvasCell::default() };
    stack.layers[0].buffer.set(0, 0, a);
    stack.layers[0].buffer.set(2, 1, a);
    stack.layers[1].buffer.set(1, 1, colored);
    stack.layers[0].casts_shadow = false;
    stack.layers[1].accepts_lighting = false;
    let (shadow, light) = lighting_masks(3, 2, &stack);
    assert_eq!(shadow, vec![vec![false, false, false], vec![false, true, false]]);
    assert_eq!(light, vec![vec![true, false, false], vec![false, false, true]]);
    stack.layers[0].visible = false;
    let (_, light) = lighting_masks(3, 2, &stack);
    assert_eq!(light, vec![vec![false, false, false], vec![false, false, false]]);
}

#[test]
fn compose_lit_takes_lit_cells_where_flagged() {
    let mut base = CanvasBuffer::new(2, 1);
    base.set(0, 0, CanvasCell { ch: 'b', ..CanvasCell::default() });
    base.set(1, 0, CanvasCell { ch: 'c', ..CanvasCell::default() });
    let lit = vec![vec![CanvasCell { ch: 'L', ..CanvasCell::default() }, CanvasCell { ch: 'M', ..CanvasCell::default() }]];
    let out = compose_lit(&base, &vec![vec![false, true]], &lit);
    assert_eq!(out.get(0, 0).map(|c| c.ch), Some('b'));
    assert_eq!(out.get(1, 0).map(|c| c.ch), Some('M'));
    assert_eq!(out.width(), 2);
}

#[test]
fn image_editor_component_reports_taken_keys() {
    let mut c = ImageEditorComponent::new();
    assert_eq!(c.handle_key(KeyCode::Char('c')), Some(ImageEffect::Reapply));
    assert_eq!(c.handle_key(KeyCode::Char('z')), None);
    assert_eq!(c.handle_key(KeyCode::Char('o')), Some(ImageEffect::Nothing));
    assert_eq!(c.handle_key(KeyCode::Char('z')), Some(ImageEffect::Nothing));
    assert_eq!(c.editor.path_buffer(), "z");
}

fn bar() -> figby::components::status_bar::StatusBar {
    figby::components::status_bar::StatusBar {
        mode: figby::components::status_bar::AppMode::FontEditor,
        mode_name: "FONT".to_string(),
        cursor: (3, 12),
        zoom: 2,
        tool_name: "Pencil".to_string(),
        unsaved: false,
        font_name: Some("big".to_string()),
        glyph_count: Some(95),
        git_branch: None,
        fps_text: "60".to_string(),
        render_mode: String::new(),
        clock_str: "12:00".to_string(),
        layer_count: 2,
        undo_count: 0,
        throbber_text: String::new(),
        icons: vec![("status_mode".to_string(), "@".to_string())],
        lighting_active: false,
        light_type: None,
        intensity_text: None,
    }
}

#[test]
fn status_bar_items_text() {
    let b = bar();
    let items = b.items();
    let texts: Vec<String> = items.iter().map(|it| it.spans.iter().map(|s| s.text.clone()).collect::<String>()).collect();
    assert_eq!(
        texts,
        vec![
            " @ FONT ",
            " T Pencil ",
            " + X:3 Y:12 ",
            " Z 2x ",
            " F big  *  # 95 ",
            " FPS:60 ",
            " \u{1f550} 12:00 ",
            " L:2 ",
        ]
    );
    assert!(items[0].keep && items[2].keep && !items[3].keep);
    let mut lit = bar();
    lit.lighting_active = true;
    lit.light_type = Some("Point".to_string());
    lit.intensity_text = Some("0.50".to_string());
    let texts: Vec<String> = lit.items().iter().map(|it| it.spans.iter().map(|s| s.text.clone()).collect::<String>()).collect();
    assert_eq!(texts, vec![" LIGHTING ", " Point  0.50  ", " FPS:60 ", " \u{1f550} 12:00 "]);
}

#[test]
fn export_component_refuses_empty_path() {
    let mut c = ExportComponent::new();
    assert_eq!(c.perform_export(Ok(())), Err(ExportError::InvalidCells("no path specified".to_string())));
    assert_eq!(c.perform_export(Err("disk full".to_string())), Err(ExportError::InvalidCells("no path specified".to_string())));
    c.dialog.enter_export(ExportMode::Png);
    c.dialog.error_message = "old".to_string();
    assert_eq!(c.perform_export(Err("disk full".to_string())), Err(ExportError::IoError("disk full".to_string())));
    assert_eq!(c.dialog.error_message, "old");
    assert_eq!(c.perform_export(Ok(())), Ok(()));
    assert!(c.dialog.error_message.is_empty());
}

#[test]
fn status_item_widths_count_columns() {
    let b = bar();
    let widths = item_widths(&b.items()).unwrap();
    assert_eq!(widths[0], 8);
    assert_eq!(widths[2], 12);
    assert_eq!(widths[6], 10);
}
