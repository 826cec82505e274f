use figby::browse::DirEntry;
use figby::export::{ExportDialog, ExportError, ExportFormat, ExportMode};
use figby::keys::KeyCode;

#[test]
fn test_export_dialog_new() {
    let dialog = ExportDialog::new();
    assert!(!dialog.active);
    assert_eq!(dialog.format, ExportMode::Png);
    assert!(dialog.path_buffer.is_empty());
    assert_eq!(dialog.font_size, 2);
}

#[test]
fn test_export_dialog_open_close() {
    let mut dialog = ExportDialog::new();
    dialog.enter_export(ExportMode::Png);
    assert!(dialog.active);
    dialog.close();
    assert!(!dialog.active);
}

#[test]
fn test_export_dialog_format_toggle() {
    let mut dialog = ExportDialog::new();
    dialog.enter_export(ExportMode::Png);
    dialog.handle_key(KeyCode::Char('T'), false);
    assert_eq!(dialog.format, ExportMode::Gif);
    dialog.handle_key(KeyCode::Char('t'), false);
    assert_eq!(dialog.format, ExportMode::Txt);
    dialog.handle_key(KeyCode::Char('t'), false);
    assert_eq!(dialog.format, ExportMode::Png);
}

#[test]
fn test_export_dialog_path_entry() {
    let mut dialog = ExportDialog::new();
    dialog.enter_export(ExportMode::Png);
    dialog.handle_key(KeyCode::Char('m'), false);
    dialog.handle_key(KeyCode::Char('y'), false);
    dialog.handle_key(KeyCode::Char('f'), false);
    assert_eq!(dialog.path_buffer, "export.pngmyf");
}

#[test]
fn test_export_dialog_enter_closes() {
    let mut dialog = ExportDialog::new();
    dialog.enter_export(ExportMode::Png);
    assert!(dialog.active);
    dialog.handle_key(KeyCode::Enter, false);
    assert!(!dialog.active);
}

#[test]
fn test_export_dialog_esc_closes() {
    let mut dialog = ExportDialog::new();
    dialog.enter_export(ExportMode::Png);
    assert!(dialog.active);
    dialog.handle_key(KeyCode::Esc, false);
    assert!(!dialog.active);
}

#[test]
fn test_export_dialog_backspace() {
    let mut dialog = ExportDialog::new();
    dialog.enter_export(ExportMode::Png);
    dialog.handle_key(KeyCode::Char('a'), false);
    dialog.handle_key(KeyCode::Char('b'), false);
    dialog.handle_key(KeyCode::Backspace, false);
    assert_eq!(dialog.path_buffer, "export.pnga");
}

#[test]
fn test_export_mode_labels() {
    assert_eq!(ExportMode::Png.label(), "PNG");
    assert_eq!(ExportMode::Txt.label(), "TXT");
    assert_eq!(ExportMode::Gif.label(), "GIF");
}

#[test]
fn test_export_mode_extensions() {
    assert_eq!(ExportMode::Png.extension(), ".png");
    assert_eq!(ExportMode::Txt.extension(), ".txt");
    assert_eq!(ExportMode::Gif.extension(), ".gif");
}

// Further cases.

#[test]
fn export_formats_follow_modes() {
    assert_eq!(ExportMode::Png.to_export_format(), ExportFormat::Png);
    assert_eq!(ExportMode::Txt.to_export_format(), ExportFormat::Txt);
    assert_eq!(ExportMode::Gif.to_export_format(), ExportFormat::Gif);
}

#[test]
fn export_requires_a_path() {
    let mut dialog = ExportDialog::new();
    assert_eq!(
        dialog.export_path(),
        Err(ExportError::InvalidCells("no path specified".to_string()))
    );
    dialog.enter_export(ExportMode::Gif);
    assert_eq!(dialog.export_path(), Ok("export.gif".to_string()));
    dialog.error_message = "old".to_string();
    assert_eq!(
        dialog.finish_export(Err("disk full".to_string())),
        Err(ExportError::IoError("disk full".to_string()))
    );
    assert_eq!(dialog.error_message, "old");
    assert_eq!(dialog.finish_export(Ok(())), Ok(()));
    assert!(dialog.error_message.is_empty());
}

#[test]
fn export_listing_sorted_and_filtered() {
    let mut dialog = ExportDialog::new();
    dialog.enter_export(ExportMode::Png);
    assert!(dialog.refresh_pending);
    let entries = vec![
        DirEntry { name: "zeta.flf".to_string(), is_dir: false },
        DirEntry { name: ".hidden".to_string(), is_dir: true },
        DirEntry { name: "alpha".to_string(), is_dir: true },
        DirEntry { name: "notes.txt".to_string(), is_dir: false },
        DirEntry { name: "beta.tlf".to_string(), is_dir: false },
    ];
    dialog.apply_listing(&entries);
    assert!(!dialog.refresh_pending);
    assert_eq!(dialog.directory_entries, vec!["alpha", "beta.tlf", "zeta.flf"]);
    dialog.handle_key(KeyCode::Down, false);
    dialog.handle_key(KeyCode::Down, false);
    dialog.handle_key(KeyCode::Down, false);
    assert_eq!(dialog.selected_entry, 2);
    dialog.listing_failed("/nope");
    assert_eq!(dialog.error_message, "Cannot read directory: /nope");
}
