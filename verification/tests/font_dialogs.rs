use figby::dialogs::font_import_options::{Field as OptionsField, FontImportOptionsDialog};
use figby::dialogs::system_font::{charset_name, Field, SystemFontPickerDialog, CHARSET_COUNT};
use figby::keys::KeyCode;

fn parse_size(buf: &str) -> Option<f32> {
    buf.parse::<f32>().ok().filter(|v| (4.0..=200.0).contains(v))
}

fn size_ok(buf: &str) -> bool {
    parse_size(buf).is_some()
}

#[test]
fn test_new_defaults() {
    let dialog = FontImportOptionsDialog::new();
    assert!(!dialog.active);
    assert_eq!(dialog.size_buffer, "12");
    assert_eq!(charset_name(dialog.charset_index), "default");
}

#[test]
fn test_enter_sets_path_and_activates() {
    let mut dialog = FontImportOptionsDialog::new();
    dialog.enter("/tmp/MyFont.ttf".to_string());
    assert!(dialog.active);
    assert_eq!(dialog.path, "/tmp/MyFont.ttf");
    assert!(!dialog.confirmed);
}

#[test]
fn test_confirm_rejects_out_of_range_size() {
    let mut dialog = FontImportOptionsDialog::new();
    dialog.enter("/tmp/f.ttf".to_string());
    dialog.size_buffer = "1".to_string();
    dialog.confirm(size_ok(&dialog.size_buffer));
    assert!(!dialog.confirmed);
    assert!(dialog.active, "dialog stays open on invalid size");
    assert!(!dialog.error_message.is_empty());
}

#[test]
fn test_confirm_succeeds_with_valid_size_and_charset() {
    let mut dialog = FontImportOptionsDialog::new();
    dialog.enter("/tmp/f.ttf".to_string());
    dialog.size_buffer = "24".to_string();
    dialog.cycle_charset(true);
    let expected_charset = charset_name(dialog.charset_index).to_string();
    let size = parse_size(&dialog.size_buffer);
    dialog.confirm(size.is_some());
    assert!(dialog.confirmed);
    assert!(!dialog.active);
    assert_eq!(size, Some(24.0));
    assert_eq!(dialog.result_charset, expected_charset);
}

#[test]
fn font_import_options_test_cycle_charset_wraps_both_directions() {
    let mut dialog = FontImportOptionsDialog::new();
    let start = dialog.charset_index;
    dialog.cycle_charset(false);
    assert_eq!(dialog.charset_index, CHARSET_COUNT - 1);
    dialog.cycle_charset(true);
    assert_eq!(dialog.charset_index, start);
}

#[test]
fn test_tab_switches_field() {
    let mut dialog = FontImportOptionsDialog::new();
    assert_eq!(dialog.selected_field, OptionsField::Size);
    dialog.handle_key(KeyCode::Tab, false);
    assert_eq!(dialog.selected_field, OptionsField::Charset);
    dialog.handle_key(KeyCode::Tab, false);
    assert_eq!(dialog.selected_field, OptionsField::Size);
}

#[test]
fn test_esc_closes_without_confirming() {
    let mut dialog = FontImportOptionsDialog::new();
    dialog.enter("/tmp/f.ttf".to_string());
    dialog.handle_key(KeyCode::Esc, false);
    assert!(!dialog.active);
    assert!(!dialog.confirmed);
}

#[test]
fn options_size_typing() {
    let mut dialog = FontImportOptionsDialog::new();
    dialog.size_buffer.clear();
    dialog.handle_key(KeyCode::Char('1'), false);
    dialog.handle_key(KeyCode::Char('.'), false);
    dialog.handle_key(KeyCode::Char('.'), false);
    dialog.handle_key(KeyCode::Char('5'), false);
    dialog.handle_key(KeyCode::Char('7'), false);
    assert_eq!(dialog.size_buffer, "1.5");
    assert!(dialog.handle_key(KeyCode::Backspace, false));
    assert_eq!(dialog.size_buffer, "1.");
    assert!(!dialog.handle_key(KeyCode::Left, false));
    dialog.handle_key(KeyCode::Tab, false);
    assert!(!dialog.handle_key(KeyCode::Char('3'), false));
    assert!(dialog.handle_key(KeyCode::Left, false));
    assert_eq!(dialog.charset_index, CHARSET_COUNT - 1);
    dialog.handle_key(KeyCode::Enter, false);
    assert_eq!(dialog.error_message, "Size must be 4-200");
    assert_eq!(dialog.selected_field, OptionsField::Size);
}

#[test]
fn test_new_defaults_to_smooth_charset() {
    let dialog = SystemFontPickerDialog::new();
    assert_eq!(charset_name(dialog.charset_index), "smooth");
    assert_eq!(dialog.result_charset, "smooth");
}

#[test]
fn test_tab_cycles_through_all_three_fields() {
    let mut dialog = SystemFontPickerDialog::new();
    assert_eq!(dialog.selected_field, Field::List);
    dialog.handle_key(KeyCode::Tab, false);
    assert_eq!(dialog.selected_field, Field::Size);
    dialog.handle_key(KeyCode::Tab, false);
    assert_eq!(dialog.selected_field, Field::Charset);
    dialog.handle_key(KeyCode::Tab, false);
    assert_eq!(dialog.selected_field, Field::List);
}

#[test]
fn test_left_right_cycle_charset_when_field_focused() {
    let mut dialog = SystemFontPickerDialog::new();
    dialog.selected_field = Field::Charset;
    let start = dialog.charset_index;
    dialog.handle_key(KeyCode::Right, false);
    assert_eq!(dialog.charset_index, (start + 1) % CHARSET_COUNT);
    dialog.handle_key(KeyCode::Left, false);
    assert_eq!(dialog.charset_index, start);
}

#[test]
fn test_left_right_ignored_when_charset_not_focused() {
    let mut dialog = SystemFontPickerDialog::new();
    assert_eq!(dialog.selected_field, Field::List);
    let start = dialog.charset_index;
    let consumed = dialog.handle_key(KeyCode::Right, false);
    assert!(!consumed, "Right should not be consumed by the List field");
    assert_eq!(dialog.charset_index, start);
}

#[test]
fn test_confirm_carries_selected_charset_into_result() {
    let mut dialog = SystemFontPickerDialog::new();
    dialog.families = vec!["TestFont".to_string()];
    dialog.cycle_charset(true);
    let expected = charset_name(dialog.charset_index).to_string();
    dialog.confirm(size_ok(&dialog.size_buffer));
    assert!(dialog.confirmed);
    assert_eq!(dialog.result_charset, expected);
}

#[test]
fn system_font_test_cycle_charset_wraps_both_directions() {
    let mut dialog = SystemFontPickerDialog::new();
    let start = dialog.charset_index;
    dialog.cycle_charset(false);
    assert_eq!(dialog.charset_index, (start + CHARSET_COUNT - 1) % CHARSET_COUNT);
    dialog.cycle_charset(true);
    assert_eq!(dialog.charset_index, start);
}

#[test]
fn picker_lists_sorted_and_filters() {
    let mut dialog = SystemFontPickerDialog::new();
    dialog.enter(Ok(vec!["noto Sans".to_string(), "DejaVu".to_string(), "Noto Serif".to_string(), "arial".to_string()]));
    assert_eq!(dialog.families, vec!["arial", "DejaVu", "noto Sans", "Noto Serif"]);
    assert_eq!(dialog.filtered_indices(), vec![0, 1, 2, 3]);
    for c in "NOTO".chars() {
        dialog.handle_key(KeyCode::Char(c), false);
    }
    assert_eq!(dialog.filtered_indices(), vec![2, 3]);
    dialog.handle_key(KeyCode::Down, false);
    dialog.handle_key(KeyCode::Down, false);
    assert_eq!(dialog.selected, 1);
    assert!(!dialog.handle_key(KeyCode::Char('7'), false));
    dialog.handle_key(KeyCode::Enter, true);
    assert!(dialog.confirmed);
    assert_eq!(dialog.result_family, "Noto Serif");
    let mut failed = SystemFontPickerDialog::new();
    failed.enter(Err("no fontconfig".to_string()));
    assert!(failed.families.is_empty());
    assert_eq!(failed.error_message, "Could not list system fonts: no fontconfig");
    failed.handle_key(KeyCode::Enter, true);
    assert_eq!(failed.error_message, "Select a font family");
    assert!(!failed.confirmed);
}
