use figby::canvas::{CanvasCell, Color};
use figby::browse::{DirEntry, PathFacts};
use figby::dialogs::rascii_import::{is_image_file, quantize_256, ColorMode, RasciiImportDialog};
use figby::keys::KeyCode;

fn no_facts() -> PathFacts {
    PathFacts {
        path_is_dir: false,
        trimmed_is_dir: false,
        trimmed_is_file: false,
        trimmed_exists: false,
        entry_is_dir: false,
    }
}

#[test]
fn test_color_mode_labels() {
    assert_eq!(ColorMode::Mono.label(), "Mono");
    assert_eq!(ColorMode::Ansi256.label(), "256");
    assert_eq!(ColorMode::Truecolor.label(), "Truecolor");
}

#[test]
fn test_is_image_file() {
    assert!(is_image_file("photo.png"));
    assert!(is_image_file("photo.jpg"));
    assert!(is_image_file("photo.jpeg"));
    assert!(is_image_file("photo.bmp"));
    assert!(is_image_file("photo.webp"));
    assert!(is_image_file("photo.gif"));
    assert!(!is_image_file("font.flf"));
    assert!(!is_image_file("text.txt"));
    assert!(!is_image_file("dir/"));
}

#[test]
fn test_quantize_256_black() {
    let c = quantize_256(0, 0, 0);
    assert_eq!(c, Color::Indexed(16));
}

#[test]
fn test_quantize_256_white() {
    let c = quantize_256(255, 255, 255);
    assert_eq!(c, Color::Indexed(231));
}

#[test]
fn test_quantize_256_red() {
    let c = quantize_256(255, 0, 0);
    assert_eq!(c, Color::Indexed(196));
}

#[test]
fn test_rascii_import_dialog_new() {
    let dialog = RasciiImportDialog::new();
    assert!(!dialog.active);
    assert_eq!(dialog.charset_index, 0);
    assert_eq!(dialog.output_width, 80);
    assert_eq!(dialog.color_mode, ColorMode::Mono);
    assert!(dialog.preview_cells.is_none());
    assert!(dialog.path_buffer.is_empty());
}

#[test]
fn test_rascii_import_enter_close() {
    let mut dialog = RasciiImportDialog::new();
    dialog.enter_import();
    assert!(dialog.active);
    dialog.close();
    assert!(!dialog.active);
}

#[test]
fn test_rascii_import_charset_cycle() {
    let mut dialog = RasciiImportDialog::new();
    assert_eq!(dialog.charset_index, 0);
    dialog.cycle_charset();
    assert_eq!(dialog.charset_index, 1);
    for _ in 0..4 {
        dialog.cycle_charset();
    }
    assert_eq!(dialog.charset_index, 0);
}

#[test]
fn test_rascii_import_width_adjust() {
    let mut dialog = RasciiImportDialog::new();
    assert_eq!(dialog.output_width, 80);
    dialog.width_up();
    assert_eq!(dialog.output_width, 84);
    dialog.width_down();
    assert_eq!(dialog.output_width, 80);

    dialog.output_width = 500;
    dialog.width_up();
    assert_eq!(dialog.output_width, 500);
    dialog.output_width = 8;
    dialog.width_down();
    assert_eq!(dialog.output_width, 8);
}

#[test]
fn test_rascii_import_color_mode_cycle() {
    let mut dialog = RasciiImportDialog::new();
    assert_eq!(dialog.color_mode, ColorMode::Mono);
    dialog.cycle_color_mode();
    assert_eq!(dialog.color_mode, ColorMode::Ansi256);
    dialog.cycle_color_mode();
    assert_eq!(dialog.color_mode, ColorMode::Truecolor);
    dialog.cycle_color_mode();
    assert_eq!(dialog.color_mode, ColorMode::Mono);
}

#[test]
fn test_rascii_import_preview_dirty_on_options_change() {
    let mut dialog = RasciiImportDialog::new();
    assert!(!dialog.preview_dirty);
    dialog.cycle_charset();
    assert!(dialog.preview_dirty);
    dialog.preview_dirty = false;
    dialog.cycle_color_mode();
    assert!(dialog.preview_dirty);
    dialog.preview_dirty = false;
    dialog.width_up();
    assert!(dialog.preview_dirty);
}

// Further cases.

#[test]
fn quantize_mid_levels_and_case() {
    assert_eq!(quantize_256(128, 51, 204), Color::Indexed(16 + 36 * 2 + 6 + 4));
    assert!(is_image_file("PHOTO.PNG"));
    let mut dialog = RasciiImportDialog::new();
    dialog.preview_cells = Some(vec![vec![CanvasCell::blank()]]);
    dialog.close();
    assert!(dialog.preview_cells.is_none());
    dialog.output_width = 10;
    dialog.width_down();
    assert_eq!(dialog.output_width, 8);
}

#[test]
fn test_rascii_import_path_entry() {
    let mut dialog = RasciiImportDialog::new();
    dialog.enter_import();
    dialog.handle_key(KeyCode::Char('t'), no_facts());
    dialog.handle_key(KeyCode::Char('e'), no_facts());
    dialog.handle_key(KeyCode::Char('s'), no_facts());
    dialog.handle_key(KeyCode::Char('t'), no_facts());
    assert_eq!(dialog.path_buffer, "test");
    dialog.handle_key(KeyCode::Backspace, no_facts());
    assert_eq!(dialog.path_buffer, "tes");
}

#[test]
fn test_rascii_import_esc_cancels() {
    let mut dialog = RasciiImportDialog::new();
    dialog.enter_import();
    assert!(dialog.active);
    dialog.handle_key(KeyCode::Esc, no_facts());
    assert!(!dialog.active);
}

#[test]
fn test_rascii_import_confirm_without_path_noop() {
    let mut dialog = RasciiImportDialog::new();
    dialog.enter_import();
    dialog.handle_key(KeyCode::Enter, no_facts());
    assert!(dialog.active);
    assert!(!dialog.confirmed);
}

#[test]
fn test_esc_from_options_returns_to_browsing() {
    let mut dialog = RasciiImportDialog::new();
    dialog.enter_import();
    dialog.preview_cells = Some(vec![vec![CanvasCell::default()]]);
    dialog.handle_key(KeyCode::Esc, no_facts());
    assert!(dialog.active);
    assert!(dialog.preview_cells.is_none());
}

#[test]
fn load_flow_builds_preview() {
    let mut dialog = RasciiImportDialog::new();
    dialog.enter_import();
    dialog.path_buffer = " photo.JPG ".to_string();
    dialog.handle_key(KeyCode::Enter, PathFacts { trimmed_is_file: true, trimmed_exists: true, ..no_facts() });
    assert!(dialog.load_pending);
    assert!(!dialog.finish_load(Ok((0, 5))));
    assert_eq!(dialog.error_message, "Loaded image is empty");
    assert!(!dialog.finish_load(Err("broken".to_string())));
    assert_eq!(dialog.error_message, "Failed to load image: broken");
    assert!(dialog.finish_load(Ok((3, 4))));
    assert!(dialog.error_message.is_empty());
    dialog.apply_preview(Some(vec![vec![CanvasCell::default()]]));
    assert!(!dialog.load_pending);
    assert!(dialog.preview_cells.is_some());
    dialog.handle_key(KeyCode::Char('+'), no_facts());
    assert_eq!(dialog.output_width, 84);
    assert!(dialog.preview_dirty);
    assert!(dialog.regenerate_pending);
    dialog.handle_key(KeyCode::Char('c'), no_facts());
    assert_eq!(dialog.charset_index, 1);
    dialog.apply_preview(None);
    assert!(!dialog.regenerate_pending);
    assert!(dialog.preview_dirty);
    dialog.handle_key(KeyCode::Enter, no_facts());
    assert!(dialog.confirmed);
    assert!(!dialog.active);
}

#[test]
fn load_refuses_non_images() {
    let mut dialog = RasciiImportDialog::new();
    dialog.enter_import();
    dialog.path_buffer = "font.flf".to_string();
    dialog.handle_key(KeyCode::Enter, PathFacts { trimmed_is_file: true, ..no_facts() });
    assert_eq!(dialog.error_message, "Select an image file (.png, .jpg, .bmp, .webp, .gif)");
    assert!(!dialog.load_pending);
    dialog.apply_listing(&vec![
        DirEntry { name: "notes.txt".to_string(), is_dir: false },
        DirEntry { name: "pic.png".to_string(), is_dir: false },
        DirEntry { name: ".hidden.png".to_string(), is_dir: false },
    ]);
    assert_eq!(dialog.directory_entries, vec!["pic.png".to_string()]);
}
