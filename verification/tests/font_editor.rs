use std::collections::HashMap;

use figby::font::{FIGcharacter, FIGfont};
use figby::font_editor::{CodeInputMode, FontEditor, FontEditorView, MirrorMode};
use figby::keys::{KeyCode, KeyModifiers};

fn make_test_font() -> FIGfont {
    FIGfont {
        charheight: 3,
        maxlength: 5,
        chars: HashMap::from([
            (
                0,
                FIGcharacter::from(vec![
                    "     ".to_string(),
                    "     ".to_string(),
                    "     ".to_string(),
                ]),
            ),
            (
                65,
                FIGcharacter::from(vec![
                    " AA  ".to_string(),
                    "A  A ".to_string(),
                    "AAAA ".to_string(),
                ]),
            ),
            (
                66,
                FIGcharacter::from(vec![
                    "BBB  ".to_string(),
                    "B  B ".to_string(),
                    "BBB  ".to_string(),
                ]),
            ),
        ]),
        ..Default::default()
    }
}

fn make_editor() -> FontEditor {
    let mut editor = FontEditor::new();
    editor.load_font(make_test_font());
    editor
}

#[test]
fn test_add_char() {
    let mut editor = make_editor();
    editor.add_char(999);
    let font = editor.font.as_ref().unwrap();
    assert!(font.chars.contains_key(&999));
    let ch = font.chars.get(&999).unwrap();
    assert_eq!(ch.rows().len(), 3);
    for row in ch.rows() {
        assert_eq!(row.len(), 5);
        assert!(row.chars().all(|c| c == ' '));
    }
    assert!(editor.all_codes.contains(&999));
}

#[test]
fn test_delete_char() {
    let mut editor = make_editor();
    editor.delete_char(65);
    let font = editor.font.as_ref().unwrap();
    assert!(!font.chars.contains_key(&65));
    assert!(!editor.all_codes.contains(&65));
}

#[test]
fn test_delete_fallback() {
    let mut editor = make_editor();
    editor.delete_char(65);
    let font = editor.font.as_ref().unwrap();
    assert!(font.chars.contains_key(&0));
    assert!(font.chars.contains_key(&66));
}

#[test]
fn test_copy_char() {
    let mut editor = make_editor();
    editor.copy_char(65, 999);
    let font = editor.font.as_ref().unwrap();
    let src = font.chars.get(&65).unwrap();
    let dst = font.chars.get(&999).unwrap();
    assert_eq!(src.rows(), dst.rows());
    assert!(editor.all_codes.contains(&999));
}

#[test]
fn test_copy_overwrite() {
    let mut editor = make_editor();
    editor.copy_char(65, 66);
    let font = editor.font.as_ref().unwrap();
    let src = font.chars.get(&65).unwrap();
    let dst = font.chars.get(&66).unwrap();
    assert_eq!(src.rows(), dst.rows());
}

#[test]
fn test_add_duplicate_code() {
    let mut editor = make_editor();
    editor.add_char(65);
    let font = editor.font.as_ref().unwrap();
    assert!(font.chars.contains_key(&65));
    let ch = font.chars.get(&65).unwrap();
    assert_eq!(ch.rows()[0], " AA  ");
}

#[test]
fn test_ensure_missing_char() {
    let font = FIGfont {
        charheight: 3,
        maxlength: 5,
        chars: HashMap::new(),
        ..Default::default()
    };
    let mut editor = FontEditor::new();
    editor.font = Some(font);
    editor.ensure_missing_char();
    let font = editor.font.as_ref().unwrap();
    assert!(font.chars.contains_key(&0));
    let ch = font.chars.get(&0).unwrap();
    assert_eq!(ch.rows().len(), 3);
    for row in ch.rows() {
        assert_eq!(row.len(), 5);
    }
}

#[test]
fn test_delete_unknown() {
    let mut editor = make_editor();
    editor.delete_char(999);
    let font = editor.font.as_ref().unwrap();
    assert_eq!(font.chars.len(), 3);
}

#[test]
fn test_copy_nonexistent_src() {
    let mut editor = make_editor();
    editor.copy_char(999, 888);
    let font = editor.font.as_ref().unwrap();
    let dst = font.chars.get(&888).unwrap();
    assert_eq!(dst.rows().len(), 3);
    for row in dst.rows() {
        assert!(row.chars().all(|c| c == ' '));
    }
}

#[test]
fn test_is_valid_code() {
    assert!(FontEditor::is_valid_code(0));
    assert!(FontEditor::is_valid_code(65));
    assert!(FontEditor::is_valid_code(0x10FFFF));
    assert!(!FontEditor::is_valid_code(0xD800));
    assert!(!FontEditor::is_valid_code(0xDFFF));
    assert!(!FontEditor::is_valid_code(0x110000));
}

#[test]
fn test_rebuild_all_codes() {
    let mut editor = make_editor();
    editor.rebuild_all_codes();
    assert_eq!(editor.all_codes, vec![0, 65, 66]);
    let font = editor.font.as_mut().unwrap();
    font.chars
        .insert(100, FIGcharacter::from(vec![" ".to_string()]));
    editor.rebuild_all_codes();
    assert_eq!(editor.all_codes, vec![0, 65, 66, 100]);
}

#[test]
fn test_code_input_flow_add() {
    let mut editor = make_editor();
    editor.code_input_active = true;
    editor.code_input_mode = CodeInputMode::Add;
    editor.code_input_buffer = "999".to_string();
    editor.execute_code_input();
    assert!(!editor.code_input_active);
    assert!(editor.font.as_ref().unwrap().chars.contains_key(&999));
}

#[test]
fn test_code_input_buffer_management() {
    let mut editor = make_editor();
    let fe = &mut editor;
    fe.code_input_active = true;
    fe.code_input_mode = CodeInputMode::Add;
    assert!(fe.handle_key_code_input(KeyCode::Char('1')));
    assert_eq!(fe.code_input_buffer, "1");
    assert!(fe.handle_key_code_input(KeyCode::Char('2')));
    assert_eq!(fe.code_input_buffer, "12");
    assert!(fe.handle_key_code_input(KeyCode::Backspace));
    assert_eq!(fe.code_input_buffer, "1");
    assert!(fe.handle_key_code_input(KeyCode::Esc));
    assert!(!fe.code_input_active);
    assert!(fe.code_input_buffer.is_empty());
}

#[test]
fn test_code_input_delete_confirm() {
    let mut editor = make_editor();
    editor.code_input_active = true;
    editor.code_input_mode = CodeInputMode::DeleteConfirm;
    editor.code_input_buffer = "y".to_string();
    editor.execute_code_input();
    let font = editor.font.as_ref().unwrap();
    assert!(font.chars.contains_key(&65));
    assert!(font.chars.contains_key(&0));
    assert!(font.chars.contains_key(&66));
}

#[test]
fn test_transform_resize_larger() {
    let mut editor = make_editor();
    editor.transform_resize(5);
    let font = editor.font.as_ref().unwrap();
    assert_eq!(font.charheight, 5);
    for ch in font.chars.values() {
        assert_eq!(ch.rows().len(), 5);
    }
    let ch0 = font.chars.get(&0).unwrap();
    for row in 3..5 {
        assert!(ch0.rows()[row].chars().all(|c| c == ' '));
    }
    let ch65 = font.chars.get(&65).unwrap();
    assert_eq!(ch65.rows()[0], " AA  ");
    assert_eq!(ch65.rows()[1], "A  A ");
    assert_eq!(ch65.rows()[2], "AAAA ");
    assert!(ch65.rows()[3].chars().all(|c| c == ' '));
    assert!(ch65.rows()[4].chars().all(|c| c == ' '));
}

#[test]
fn test_transform_resize_smaller() {
    let mut editor = make_editor();
    editor.transform_resize(2);
    let font = editor.font.as_ref().unwrap();
    assert_eq!(font.charheight, 2);
    for ch in font.chars.values() {
        assert_eq!(ch.rows().len(), 2);
    }
    let ch65 = font.chars.get(&65).unwrap();
    assert_eq!(ch65.rows()[0], " AA  ");
    assert_eq!(ch65.rows()[1], "A  A ");
}

#[test]
fn test_transform_bold() {
    let mut editor = make_editor();
    editor.transform_bold();
    let font = editor.font.as_ref().unwrap();
    let ch65 = font.chars.get(&65).unwrap();
    assert_eq!(ch65.rows()[0], "  AAAA    ");
    assert_eq!(ch65.rows()[1], "AA    AA  ");
    assert_eq!(ch65.rows()[2], "AAAAAAAA  ");
}

#[test]
fn test_transform_bold_updates_maxlength() {
    let mut editor = make_editor();
    assert_eq!(editor.font.as_ref().unwrap().maxlength, 5);
    editor.transform_bold();
    assert_eq!(editor.font.as_ref().unwrap().maxlength, 10);
}

#[test]
fn test_transform_italicize() {
    let mut editor = make_editor();
    editor.transform_italicize();
    let font = editor.font.as_ref().unwrap();
    let ch65 = font.chars.get(&65).unwrap();
    assert_eq!(ch65.rows()[0], " AA  ");
    assert_eq!(ch65.rows()[1], " A  A ");
    assert_eq!(ch65.rows()[2], "  AAAA ");
}

#[test]
fn test_transform_mirror_horizontal() {
    let mut editor = make_editor();
    editor.transform_mirror(MirrorMode::Horizontal);
    let font = editor.font.as_ref().unwrap();
    let ch65 = font.chars.get(&65).unwrap();
    assert_eq!(ch65.rows()[0], "  AA ");
    assert_eq!(ch65.rows()[1], " A  A");
    assert_eq!(ch65.rows()[2], " AAAA");
}

#[test]
fn test_transform_mirror_vertical() {
    let mut editor = make_editor();
    editor.transform_mirror(MirrorMode::Vertical);
    let font = editor.font.as_ref().unwrap();
    let ch65 = font.chars.get(&65).unwrap();
    assert_eq!(ch65.rows()[0], "AAAA ");
    assert_eq!(ch65.rows()[1], "A  A ");
    assert_eq!(ch65.rows()[2], " AA  ");
}

#[test]
fn test_transform_mirror_both() {
    let mut editor = make_editor();
    editor.transform_mirror(MirrorMode::Both);
    let font = editor.font.as_ref().unwrap();
    let ch65 = font.chars.get(&65).unwrap();
    assert_eq!(ch65.rows()[0], " AAAA");
    assert_eq!(ch65.rows()[1], " A  A");
    assert_eq!(ch65.rows()[2], "  AA ");
}

#[test]
fn test_transform_rename() {
    let mut editor = make_editor();
    assert!(editor.font_storage_name.is_empty());
    editor.transform_rename("MyFont");
    assert_eq!(editor.font_storage_name, "MyFont");
    editor.transform_rename("Another Font");
    assert_eq!(editor.font_storage_name, "Another Font");
}

#[test]
fn test_transform_resize_across_all_codes() {
    let mut editor = make_editor();
    editor.transform_resize(4);
    let font = editor.font.as_ref().unwrap();
    assert_eq!(font.charheight, 4);
    for (&code, ch) in &font.chars {
        assert_eq!(
            ch.rows().len(),
            4,
            "char U+{code:X} should have 4 rows after resize"
        );
    }
}

#[test]
fn test_transform_resize_identity() {
    let mut editor = make_editor();
    let orig_height = editor.font.as_ref().unwrap().charheight;
    editor.transform_resize(orig_height);
    assert_eq!(editor.font.as_ref().unwrap().charheight, orig_height);
}

#[test]
fn test_transform_bold_all_chars() {
    let mut editor = make_editor();
    editor.transform_bold();
    let font = editor.font.as_ref().unwrap();
    for (&code, ch) in &font.chars {
        for row in ch.rows() {
            assert_eq!(
                row.len() % 2,
                0,
                "char U+{code:X} should have even width after bold"
            );
        }
    }
}

#[test]
fn test_transform_mirror_horizontal_all_chars() {
    let mut editor = make_editor();
    editor.transform_mirror(MirrorMode::Horizontal);
    let font = editor.font.as_ref().unwrap();
    for ch in font.chars.values() {
        for row in ch.rows() {
            let reversed: String = row.chars().rev().collect();
            let double: String = reversed.chars().rev().collect();
            assert_eq!(double, *row);
        }
    }
}

#[test]
fn test_transform_italicize_empty_font() {
    let mut editor = FontEditor::new();
    editor.transform_italicize();
}

#[test]
fn test_transform_bold_empty_font() {
    let mut editor = FontEditor::new();
    editor.transform_bold();
}

#[test]
fn test_transform_resize_empty_font() {
    let mut editor = FontEditor::new();
    editor.transform_resize(10);
}

#[test]
fn test_enter_transform_editor() {
    let mut editor = make_editor();
    editor.enter_transform_editor();
    assert_eq!(editor.view, FontEditorView::TransformEditor);
    assert_eq!(editor.selected_transform, 0);
    assert!(!editor.input_active);
    assert!(editor.input_buffer.is_empty());
}

#[test]
fn test_transform_editor_navigation() {
    let mut editor = make_editor();
    editor.enter_transform_editor();
    for i in 0..5 {
        editor.handle_key(KeyCode::Down, KeyModifiers::none(), 120);
        assert_eq!(editor.selected_transform, (i + 1) % 6);
    }
    editor.handle_key(KeyCode::Down, KeyModifiers::none(), 120);
    assert_eq!(editor.selected_transform, 0);
    editor.handle_key(KeyCode::Up, KeyModifiers::none(), 120);
    assert_eq!(editor.selected_transform, 5);
}

#[test]
fn test_transform_editor_esc_returns_to_overview() {
    let mut editor = make_editor();
    editor.enter_transform_editor();
    assert_eq!(editor.view, FontEditorView::TransformEditor);
    editor.handle_key(KeyCode::Esc, KeyModifiers::none(), 120);
    assert_eq!(editor.view, FontEditorView::Overview);
}

#[test]
fn test_transform_editor_t_key_opens() {
    let mut editor = make_editor();
    assert!(editor.handle_key(KeyCode::Char('T'), KeyModifiers::none(), 120));
    assert_eq!(editor.view, FontEditorView::TransformEditor);
}

#[test]
fn test_transform_editor_resize_flow() {
    let mut editor = make_editor();
    editor.enter_transform_editor();
    editor.handle_key(KeyCode::Enter, KeyModifiers::none(), 120);
    assert!(editor.input_active);
    editor.handle_key(KeyCode::Char('5'), KeyModifiers::none(), 120);
    assert_eq!(editor.input_buffer, "5");
    editor.handle_key(KeyCode::Enter, KeyModifiers::none(), 120);
    assert!(!editor.input_active);
    assert_eq!(editor.font.as_ref().unwrap().charheight, 5);
}

#[test]
fn test_transform_editor_italicize_flow() {
    let mut editor = make_editor();
    editor.enter_transform_editor();
    editor.handle_key(KeyCode::Down, KeyModifiers::none(), 120);
    editor.handle_key(KeyCode::Enter, KeyModifiers::none(), 120);
    let ch65 = editor.font.as_ref().unwrap().chars.get(&65).unwrap();
    assert_eq!(ch65.rows()[1], " A  A ");
}

#[test]
fn test_transform_editor_bold_flow() {
    let mut editor = make_editor();
    editor.enter_transform_editor();
    for _ in 0..2 {
        editor.handle_key(KeyCode::Down, KeyModifiers::none(), 120);
    }
    editor.handle_key(KeyCode::Enter, KeyModifiers::none(), 120);
    let ch65 = editor.font.as_ref().unwrap().chars.get(&65).unwrap();
    assert_eq!(ch65.rows()[0], "  AAAA    ");
}

#[test]
fn test_transform_editor_mirror_flow() {
    let mut editor = make_editor();
    editor.enter_transform_editor();
    for _ in 0..3 {
        editor.handle_key(KeyCode::Down, KeyModifiers::none(), 120);
    }
    editor.handle_key(KeyCode::Enter, KeyModifiers::none(), 120);
    assert!(editor.transform_submode.is_some());
    editor.handle_key(KeyCode::Enter, KeyModifiers::none(), 120);
    let ch65 = editor.font.as_ref().unwrap().chars.get(&65).unwrap();
    assert_eq!(ch65.rows()[0], "  AA ");
}

#[test]
fn test_transform_copy_glyph_nonexistent_font() {
    let mut editor = make_editor();
    editor.transform_copy_glyph_from("nonexistent_font_xyz", None, 65);
    assert!(
        !editor.error_message.is_empty(),
        "should set error for nonexistent font"
    );
}

// Further cases.

#[test]
fn copy_glyph_from_loaded_font_stores_it() {
    let mut editor = make_editor();
    let other = FIGfont {
        charheight: 3,
        maxlength: 2,
        chars: HashMap::from([(
            97,
            FIGcharacter::from(vec!["a ".to_string(), "aa".to_string(), " a".to_string()]),
        )]),
        ..Default::default()
    };
    editor.transform_copy_glyph_from("other", Some(&other), 97);
    assert!(editor.error_message.is_empty());
    let font = editor.font.as_ref().unwrap();
    assert_eq!(font.chars.get(&97).unwrap().rows(), &["a ", "aa", " a"]);
    assert_eq!(editor.all_codes, vec![0, 65, 66, 97]);
    editor.transform_copy_glyph_from("other", Some(&other), 98);
    assert_eq!(editor.error_message, "Code U+62 not found in font 'other'");
}

#[test]
fn add_invalid_code_reports_hex() {
    let mut editor = make_editor();
    editor.add_char(0xD800);
    assert_eq!(editor.error_message, "Invalid code point: U+D800");
    editor.add_char(65);
    assert_eq!(editor.error_message, "Code U+41 already exists");
    editor.delete_char(1234);
    assert_eq!(editor.error_message, "Code U+4D2 not found");
    editor.copy_char(65, 0x110000);
    assert_eq!(editor.error_message, "Invalid destination code point: U+110000");
}

#[test]
fn add_selects_new_code() {
    let mut editor = make_editor();
    editor.add_char(66 + 1);
    assert_eq!(editor.all_codes, vec![0, 65, 66, 67]);
    assert_eq!(editor.selected_index, 3);
    editor.add_char(1);
    assert_eq!(editor.selected_index, 1);
}

#[test]
fn delete_zero_restores_blank_missing_glyph() {
    let mut editor = make_editor();
    editor.selected_index = 2;
    editor.delete_char(0);
    let font = editor.font.as_ref().unwrap();
    assert!(font.chars.contains_key(&0));
    assert_eq!(font.chars.get(&0).unwrap().rows(), &["     ", "     ", "     "]);
    assert_eq!(editor.selected_index, 2);
    editor.selected_index = 9;
    editor.delete_char(65);
    assert_eq!(editor.selected_index, 1);
}

#[test]
fn filtered_codes_by_decimal_and_char() {
    let mut editor = make_editor();
    editor.search_query = "6".to_string();
    assert_eq!(editor.filtered_codes(), vec![65, 66]);
    editor.search_query = " A ".to_string();
    assert_eq!(editor.filtered_codes(), vec![65]);
    editor.search_query = "b".to_string();
    assert_eq!(editor.filtered_codes(), vec![66]);
    editor.search_query = "   ".to_string();
    assert_eq!(editor.filtered_codes(), vec![0, 65, 66]);
}

#[test]
fn compute_cols_uses_cell_width() {
    let editor = make_editor();
    assert_eq!(editor.compute_cols(120), 15);
    assert_eq!(editor.compute_cols(5), 1);
    let none = FontEditor::new();
    assert_eq!(none.compute_cols(120), 1);
}

#[test]
fn header_field_edit_and_validation() {
    let mut editor = make_editor();
    editor.enter_header_editor();
    editor.handle_key(KeyCode::Down, KeyModifiers::none(), 80);
    editor.handle_key(KeyCode::Enter, KeyModifiers::none(), 80);
    assert!(editor.editing_field);
    assert_eq!(editor.edit_buffer, "3");
    editor.handle_key(KeyCode::Backspace, KeyModifiers::none(), 80);
    editor.handle_key(KeyCode::Char('0'), KeyModifiers::none(), 80);
    editor.handle_key(KeyCode::Enter, KeyModifiers::none(), 80);
    assert_eq!(editor.error_message, "Height must be \u{2265} 1");
    assert!(editor.editing_field);
    editor.edit_buffer = " +7 ".to_string();
    editor.handle_key(KeyCode::Enter, KeyModifiers::none(), 80);
    assert!(!editor.editing_field);
    assert_eq!(editor.font.as_ref().unwrap().charheight, 7);
    editor.selected_field = 5;
    editor.edit_buffer = "2".to_string();
    editor.editing_field = true;
    editor.handle_key(KeyCode::Enter, KeyModifiers::none(), 80);
    assert_eq!(editor.error_message, "Print direction must be -1, 0, or 1");
    editor.edit_buffer = "-1".to_string();
    editor.handle_key(KeyCode::Enter, KeyModifiers::none(), 80);
    assert_eq!(editor.font.as_ref().unwrap().print_direction, -1);
}

#[test]
fn smush_rule_toggle_flips_bit() {
    let mut editor = make_editor();
    editor.enter_smush_editor();
    editor.handle_key(KeyCode::Down, KeyModifiers::none(), 80);
    editor.handle_key(KeyCode::Enter, KeyModifiers::none(), 80);
    assert_eq!(editor.font.as_ref().unwrap().full_layout, 2);
    editor.handle_key(KeyCode::Char(' '), KeyModifiers::none(), 80);
    assert_eq!(editor.font.as_ref().unwrap().full_layout, 0);
    editor.handle_key(KeyCode::Up, KeyModifiers::none(), 80);
    editor.handle_key(KeyCode::Up, KeyModifiers::none(), 80);
    assert_eq!(editor.smush_selected, 5);
}

#[test]
fn undo_redo_round_trip() {
    let mut editor = make_editor();
    let mut buf = figby::canvas::CanvasBuffer::new(2, 1);
    buf.set(0, 0, figby::canvas::CanvasCell { ch: 'x', fg: None, bg: None, height: None });
    editor.sync_from_canvas(65, &buf);
    assert_eq!(editor.font.as_ref().unwrap().chars.get(&65).unwrap().rows(), &["x "]);
    editor.view = FontEditorView::CharEditor(65);
    assert!(editor.handle_key(KeyCode::Char('z'), KeyModifiers::control(), 80));
    assert_eq!(editor.font.as_ref().unwrap().chars.get(&65).unwrap().rows()[0], " AA  ");
    assert!(editor.handle_key(KeyCode::Char('y'), KeyModifiers::control(), 80));
    assert_eq!(editor.font.as_ref().unwrap().chars.get(&65).unwrap().rows(), &["x "]);
    assert!(!editor.handle_key(KeyCode::Char('y'), KeyModifiers::control(), 80));
}

#[test]
fn copy_prompt_two_steps() {
    let mut editor = make_editor();
    editor.handle_key(KeyCode::Char('C'), KeyModifiers::none(), 80);
    assert!(editor.code_input_active);
    editor.handle_key(KeyCode::Char('6'), KeyModifiers::none(), 80);
    editor.handle_key(KeyCode::Char('5'), KeyModifiers::none(), 80);
    editor.handle_key(KeyCode::Enter, KeyModifiers::none(), 80);
    assert_eq!(editor.code_input_mode, CodeInputMode::CopyDest);
    assert_eq!(editor.copy_source_code, 65);
    editor.handle_key(KeyCode::Char('7'), KeyModifiers::none(), 80);
    editor.handle_key(KeyCode::Char('0'), KeyModifiers::none(), 80);
    editor.handle_key(KeyCode::Enter, KeyModifiers::none(), 80);
    assert!(!editor.code_input_active);
    let font = editor.font.as_ref().unwrap();
    assert_eq!(font.chars.get(&70).unwrap().rows(), font.chars.get(&65).unwrap().rows());
}

#[test]
fn copy_glyph_prompt_records_request() {
    let mut editor = make_editor();
    editor.enter_transform_editor();
    editor.selected_transform = 4;
    editor.handle_key(KeyCode::Enter, KeyModifiers::none(), 80);
    editor.input_buffer = "standard".to_string();
    editor.handle_key(KeyCode::Enter, KeyModifiers::none(), 80);
    assert!(editor.input_active);
    assert_eq!(editor.transform_font_name, "standard");
    editor.input_buffer = "65".to_string();
    editor.handle_key(KeyCode::Enter, KeyModifiers::none(), 80);
    assert!(!editor.input_active);
    assert_eq!(editor.glyph_request, Some(("standard".to_string(), 65)));
}
