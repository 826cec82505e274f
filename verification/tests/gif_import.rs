use figby::browse::{DirEntry, PathFacts};
use figby::dialogs::gif_import::{GifField, GifImportDialog, GifProbe, GifScaleTarget, ProportionRequest};
use figby::keys::KeyCode;

fn no_facts() -> PathFacts {
    PathFacts {
        path_is_dir: false,
        trimmed_is_dir: false,
        trimmed_is_file: false,
        trimmed_exists: false,
        entry_is_dir: false,
    }
}

#[test]
fn test_gif_import_dialog_new() {
    let dlg = GifImportDialog::new();
    assert!(!dlg.active);
    assert_eq!(dlg.image_w_buf, "80");
    assert_eq!(dlg.image_h_buf, "24");
    assert_eq!(dlg.canvas_w_buf, "80");
    assert_eq!(dlg.canvas_h_buf, "24");
    assert!(dlg.keep_proportions);
}

#[test]
fn test_enter_close() {
    let mut dlg = GifImportDialog::new();
    dlg.enter();
    assert!(dlg.active);
    assert!(dlg.is_browsing());
    dlg.close();
    assert!(!dlg.active);
}

#[test]
fn test_field_cycle() {
    assert_eq!(GifField::ImageWidth.next(), GifField::ImageHeight);
    assert_eq!(GifField::ImageHeight.next(), GifField::CanvasWidth);
    assert_eq!(GifField::CanvasWidth.next(), GifField::CanvasHeight);
    assert_eq!(GifField::CanvasHeight.next(), GifField::KeepProportions);
    assert_eq!(GifField::KeepProportions.next(), GifField::ImageWidth);

    assert_eq!(GifField::ImageWidth.prev(), GifField::KeepProportions);
    assert_eq!(GifField::KeepProportions.prev(), GifField::CanvasHeight);
}

#[test]
fn test_parse_u16() {
    assert_eq!(GifImportDialog::parse_u16("80"), Some(80));
    assert_eq!(GifImportDialog::parse_u16("0"), None);
    assert_eq!(GifImportDialog::parse_u16("abc"), None);
    assert_eq!(GifImportDialog::parse_u16(""), None);
}

#[test]
fn test_confirm_without_path_fails() {
    let mut dlg = GifImportDialog::new();
    dlg.native_width = 100;
    dlg.native_height = 50;
    let exists = std::path::Path::new(dlg.path_buffer.trim()).exists();
    dlg.confirm_with(exists);
    assert!(!dlg.confirmed);
    assert!(!dlg.error_message.is_empty());
}

// Further cases.

#[test]
fn parse_u16_bounds() {
    assert_eq!(GifImportDialog::parse_u16("65535"), Some(65535));
    assert_eq!(GifImportDialog::parse_u16("65536"), None);
    assert_eq!(GifImportDialog::parse_u16("+7"), Some(7));
    assert_eq!(GifImportDialog::parse_u16("-7"), None);
}

#[test]
fn confirm_reports_first_bad_field() {
    let mut dlg = GifImportDialog::new();
    dlg.path_buffer = " anim.gif ".to_string();
    dlg.image_h_buf = "0".to_string();
    dlg.confirm_with(true);
    assert_eq!(dlg.error_message, "Image height must be 1-65535");
    assert_eq!(dlg.selected_field, GifField::ImageHeight);
    assert!(!dlg.confirmed);
    dlg.confirm_with(false);
    assert_eq!(dlg.error_message, "File not found");
    assert_eq!(dlg.selected_field, GifField::ImageWidth);
}

#[test]
fn confirm_records_choice() {
    let mut dlg = GifImportDialog::new();
    dlg.enter();
    dlg.path_buffer = " anim.gif ".to_string();
    dlg.keep_proportions = false;
    dlg.confirm_with(true);
    assert!(dlg.confirmed);
    assert!(!dlg.active);
    let cfg = dlg.config.as_ref().unwrap();
    assert_eq!(cfg.path, "anim.gif");
    assert_eq!(cfg.image_scale, GifScaleTarget::Exact(80, 24));
    assert_eq!(cfg.canvas_width, 80);
    assert_eq!(cfg.canvas_height, 24);
}

#[test]
fn test_digit_entry() {
    let mut dlg = GifImportDialog::new();
    dlg.native_width = 100;
    dlg.native_height = 50;
    dlg.image_w_buf.clear();

    dlg.handle_key(KeyCode::Char('4'), no_facts());
    dlg.handle_key(KeyCode::Char('0'), no_facts());
    assert_eq!(dlg.image_w_buf, "40");
}

#[test]
fn test_backspace() {
    let mut dlg = GifImportDialog::new();
    dlg.native_width = 100;
    dlg.native_height = 50;
    dlg.image_w_buf = "80".to_string();
    dlg.handle_key(KeyCode::Backspace, no_facts());
    assert_eq!(dlg.image_w_buf, "8");
}

#[test]
fn test_esc_goes_back_to_browsing() {
    let mut dlg = GifImportDialog::new();
    dlg.native_width = 100;
    dlg.native_height = 50;
    assert!(!dlg.is_browsing());
    dlg.handle_key(KeyCode::Esc, no_facts());
    assert!(dlg.is_browsing());
}

#[test]
fn test_toggle_proportions() {
    let mut dlg = GifImportDialog::new();
    dlg.native_width = 100;
    dlg.native_height = 50;
    dlg.selected_field = GifField::KeepProportions;
    assert!(dlg.keep_proportions);
    dlg.handle_key(KeyCode::Char(' '), no_facts());
    assert!(!dlg.keep_proportions);
    dlg.handle_key(KeyCode::Char(' '), no_facts());
    assert!(dlg.keep_proportions);
}

#[test]
fn digit_asks_for_proportional_height() {
    let mut dlg = GifImportDialog::new();
    dlg.native_width = 100;
    dlg.native_height = 50;
    dlg.image_w_buf = "4".to_string();
    dlg.handle_key(KeyCode::Char('0'), no_facts());
    assert_eq!(dlg.proportion_request, Some(ProportionRequest::HeightForWidth(40)));
    dlg.apply_proportion(10);
    assert_eq!(dlg.image_h_buf, "10");
    assert_eq!(dlg.proportion_request, None);
    dlg.selected_field = GifField::ImageHeight;
    dlg.handle_key(KeyCode::Backspace, no_facts());
    assert_eq!(dlg.image_h_buf, "1");
    assert_eq!(dlg.proportion_request, Some(ProportionRequest::WidthForHeight(1)));
    dlg.apply_proportion(70000);
    assert_eq!(dlg.image_w_buf, "65535");
}

#[test]
fn digit_stops_at_five_bytes() {
    let mut dlg = GifImportDialog::new();
    dlg.native_width = 100;
    dlg.native_height = 50;
    dlg.selected_field = GifField::CanvasWidth;
    dlg.canvas_w_buf = "12345".to_string();
    assert!(dlg.handle_key(KeyCode::Char('6'), no_facts()));
    assert_eq!(dlg.canvas_w_buf, "12345");
    assert!(!dlg.handle_key(KeyCode::Char('x'), no_facts()));
    dlg.handle_key(KeyCode::Tab, no_facts());
    assert_eq!(dlg.selected_field, GifField::CanvasHeight);
    dlg.handle_key(KeyCode::BackTab, no_facts());
    assert_eq!(dlg.selected_field, GifField::CanvasWidth);
}

#[test]
fn browsing_types_and_probes() {
    let mut dlg = GifImportDialog::new();
    dlg.enter();
    for c in "clip.GIF".chars() {
        dlg.handle_key(KeyCode::Char(c), no_facts());
    }
    assert_eq!(dlg.path_buffer, "clip.GIF");
    assert!(dlg.refresh_pending);
    let facts = PathFacts { trimmed_is_file: true, trimmed_exists: true, ..no_facts() };
    dlg.handle_key(KeyCode::Enter, facts);
    assert!(dlg.probe_pending);
    dlg.finish_probe(GifProbe::Read { width: 320, height: 70000, fit_width: 80, fit_height: 9 });
    assert!(!dlg.probe_pending);
    assert_eq!(dlg.native_width, 320);
    assert_eq!(dlg.native_height, 65535);
    assert_eq!(dlg.image_w_buf, "80");
    assert_eq!(dlg.canvas_h_buf, "9");
    assert!(!dlg.is_browsing());
}

#[test]
fn browsing_refuses_non_gif_and_reports_probe_errors() {
    let mut dlg = GifImportDialog::new();
    dlg.enter();
    dlg.path_buffer = "notes.txt".to_string();
    let facts = PathFacts { trimmed_is_file: true, trimmed_exists: true, ..no_facts() };
    dlg.handle_key(KeyCode::Enter, facts);
    assert_eq!(dlg.error_message, "Select a .gif file");
    assert!(!dlg.probe_pending);
    dlg.finish_probe(GifProbe::NotFound);
    assert_eq!(dlg.error_message, "File not found");
    dlg.finish_probe(GifProbe::Failed("bad header".to_string()));
    assert_eq!(dlg.error_message, "Failed to read GIF: bad header");
}

#[test]
fn browsing_enter_on_listed_entry() {
    let mut dlg = GifImportDialog::new();
    dlg.enter();
    dlg.apply_listing(&vec![
        DirEntry { name: "b.gif".to_string(), is_dir: false },
        DirEntry { name: "a".to_string(), is_dir: true },
        DirEntry { name: "c.png".to_string(), is_dir: false },
    ]);
    assert_eq!(dlg.directory_entries, vec!["a".to_string(), "b.gif".to_string()]);
    dlg.handle_key(KeyCode::Down, no_facts());
    assert_eq!(dlg.selected_entry, 1);
    assert_eq!(dlg.entry_path(false), Some("./b.gif".to_string()));
    dlg.handle_key(KeyCode::Enter, no_facts());
    assert_eq!(dlg.path_buffer, "./b.gif");
    assert!(dlg.probe_pending);
    let mut other = GifImportDialog::new();
    other.enter();
    other.apply_listing(&vec![DirEntry { name: "a".to_string(), is_dir: true }]);
    other.handle_key(KeyCode::Enter, PathFacts { entry_is_dir: true, ..no_facts() });
    assert_eq!(other.path_buffer, "./a");
    assert!(other.refresh_pending);
    assert!(!other.probe_pending);
}
