use std::path::Path;

use figby::browse::DirEntry;
use figby::file_ops::{FileOpsDialog, FileOpsMode, RecentFiles};
use figby::keys::KeyCode;

#[test]
fn test_file_ops_dialog_new() {
    let dialog = FileOpsDialog::new();
    assert_eq!(dialog.mode, FileOpsMode::Idle);
    assert!(dialog.path_buffer.is_empty());
    assert!(dialog.error_message.is_empty());
}

#[test]
fn test_file_ops_enter_save_as() {
    let mut dialog = FileOpsDialog::new();
    dialog.enter_save_as(None);
    assert_eq!(dialog.mode, FileOpsMode::SaveAs);
    assert!(dialog.path_buffer.is_empty());

    dialog.enter_save_as(Some("/tmp/test.flf"));
    assert_eq!(dialog.path_buffer, "/tmp/test.flf");
}

#[test]
fn test_file_ops_close() {
    let mut dialog = FileOpsDialog::new();
    dialog.enter_save_as(Some("test.flf"));
    dialog.close();
    assert_eq!(dialog.mode, FileOpsMode::Idle);
}

#[test]
fn test_selected_path_adds_extension() {
    let dialog = FileOpsDialog {
        path_buffer: "myfont".to_string(),
        ..FileOpsDialog::new()
    };
    let path = dialog.selected_path();
    assert_eq!(
        Path::new(&path).extension().map(|e| e.to_string_lossy().to_string()),
        Some("flf".to_string())
    );
}

#[test]
fn test_selected_path_keeps_extension() {
    let dialog = FileOpsDialog {
        path_buffer: "myfont.flf".to_string(),
        ..FileOpsDialog::new()
    };
    let path = dialog.selected_path();
    assert_eq!(
        Path::new(&path).file_name().map(|n| n.to_string_lossy().to_string()),
        Some("myfont.flf".to_string())
    );
}

#[test]
fn test_open_dialog_enter() {
    let mut dialog = FileOpsDialog::new();
    let recent: Vec<String> = Vec::new();
    dialog.enter_open(&recent);
    assert_eq!(dialog.mode, FileOpsMode::Open);
    assert!(dialog.path_buffer.is_empty());
    assert!(dialog.error_message.is_empty());
}

#[test]
fn test_open_dialog_enter_exit() {
    let mut dialog = FileOpsDialog::new();
    let recent: Vec<String> = Vec::new();
    dialog.enter_open(&recent);
    assert_eq!(dialog.mode, FileOpsMode::Open);
    dialog.handle_key(KeyCode::Esc, false);
    assert_eq!(dialog.mode, FileOpsMode::Idle);
}

#[test]
fn test_open_dialog_type_path() {
    let mut dialog = FileOpsDialog::new();
    let recent: Vec<String> = Vec::new();
    dialog.enter_open(&recent);
    dialog.handle_key(KeyCode::Char('m'), false);
    dialog.handle_key(KeyCode::Char('y'), false);
    dialog.handle_key(KeyCode::Char('.'), false);
    dialog.handle_key(KeyCode::Char('f'), false);
    dialog.handle_key(KeyCode::Char('l'), false);
    dialog.handle_key(KeyCode::Char('f'), false);
    assert_eq!(dialog.path_buffer, "my.flf");
}

#[test]
fn test_open_dialog_paste_path() {
    let mut dialog = FileOpsDialog::new();
    let recent: Vec<String> = Vec::new();
    dialog.enter_open(&recent);
    dialog.handle_paste("/path/to/font.flf");
    assert_eq!(dialog.path_buffer, "/path/to/font.flf");
}

#[test]
fn test_open_dialog_paste_idle_noop() {
    let mut dialog = FileOpsDialog::new();
    assert_eq!(dialog.mode, FileOpsMode::Idle);
    dialog.handle_paste("should not set");
    assert!(dialog.path_buffer.is_empty());
}

#[test]
fn test_open_dialog_enter_finalizes() {
    let mut dialog = FileOpsDialog::new();
    let recent: Vec<String> = Vec::new();
    dialog.enter_open(&recent);
    dialog.handle_key(KeyCode::Enter, false);
    assert_eq!(dialog.mode, FileOpsMode::Idle);
}

#[test]
fn test_open_dialog_backspace_empty() {
    let mut dialog = FileOpsDialog::new();
    let recent: Vec<String> = Vec::new();
    dialog.enter_open(&recent);
    dialog.handle_key(KeyCode::Backspace, false);
    assert!(dialog.path_buffer.is_empty());
}

#[test]
fn test_recent_files_new_empty() {
    let recent = RecentFiles::new();
    assert!(recent.is_empty());
    assert_eq!(recent.len(), 0);
}

#[test]
fn test_recent_files_push() {
    let mut recent = RecentFiles::new();
    recent.push("/a.flf".to_string());
    recent.push("/b.flf".to_string());
    recent.push("/c.flf".to_string());
    assert_eq!(recent.len(), 3);
    assert_eq!(recent.get(0), Some(&"/c.flf".to_string()));
    assert_eq!(recent.get(2), Some(&"/a.flf".to_string()));
}

#[test]
fn test_recent_files_max() {
    let mut recent = RecentFiles::new();
    for i in 0..15 {
        recent.push(format!("/font_{i}.flf"));
    }
    assert_eq!(recent.len(), 10);
    assert_eq!(recent.get(0), Some(&"/font_14.flf".to_string()));
    assert_eq!(recent.get(9), Some(&"/font_5.flf".to_string()));
}

#[test]
fn test_recent_files_dedup() {
    let mut recent = RecentFiles::new();
    recent.push("/a.flf".to_string());
    recent.push("/b.flf".to_string());
    recent.push("/a.flf".to_string());
    assert_eq!(recent.len(), 2);
    assert_eq!(recent.get(0), Some(&"/a.flf".to_string()));
    assert_eq!(recent.get(1), Some(&"/b.flf".to_string()));
}

#[test]
fn test_recent_files_load_empty_on_missing() {
    let recent = RecentFiles::new();
    assert!(recent.is_empty());
}

#[test]
fn test_recent_files_remove_missing() {
    let mut recent = RecentFiles::new();
    recent.push("/nonexistent_path_12345.flf".to_string());
    let keep: Vec<bool> = recent.list().iter().map(|p| std::path::Path::new(p).exists()).collect();
    recent.retain_flagged(&keep);
    assert!(recent.is_empty());
}

#[test]
fn test_recent_files_remove_idx() {
    let mut recent = RecentFiles::new();
    recent.push("/a.flf".to_string());
    recent.push("/b.flf".to_string());
    recent.remove(0);
    assert_eq!(recent.len(), 1);
    assert_eq!(recent.get(0), Some(&"/a.flf".to_string()));
    recent.remove(5);
    assert_eq!(recent.len(), 1);
}

#[test]
fn test_open_dialog_recent_file_by_digit() {
    let mut dialog = FileOpsDialog::new();
    let recent = vec![
        "/first.flf".to_string(),
        "/second.flf".to_string(),
        "/third.flf".to_string(),
    ];
    dialog.enter_open(&recent);
    dialog.handle_key(KeyCode::Char('2'), false);
    assert_eq!(dialog.path_buffer, "/second.flf");
}

#[test]
fn test_open_dialog_recent_digit_out_of_range() {
    let mut dialog = FileOpsDialog::new();
    let recent = vec!["/first.flf".to_string()];
    dialog.enter_open(&recent);
    dialog.handle_key(KeyCode::Char('9'), false);
    assert!(dialog.path_buffer.is_empty());
}

// Further cases.

#[test]
fn recent_files_text_round_trip() {
    let mut recent = RecentFiles::new();
    recent.push("/font_a.flf".to_string());
    recent.push("/font_b.flf".to_string());
    let text = recent.to_text();
    assert_eq!(text, "/font_b.flf\n/font_a.flf");
    let loaded = RecentFiles::from_text(&text);
    assert_eq!(loaded.len(), 2);
    assert_eq!(loaded.get(0), Some(&"/font_b.flf".to_string()));
    assert_eq!(loaded.get(1), Some(&"/font_a.flf".to_string()));
    let messy = RecentFiles::from_text("a\r\n\n\r\nb\n");
    assert_eq!(messy.list(), &["a".to_string(), "b".to_string()]);
}

#[test]
fn retain_flagged_keeps_order() {
    let mut recent = RecentFiles::new();
    for p in ["/1", "/2", "/3"] {
        recent.push(p.to_string());
    }
    recent.retain_flagged(&vec![true, false, true]);
    assert_eq!(recent.list(), &["/3".to_string(), "/1".to_string()]);
}

#[test]
fn selected_path_blank_is_untitled() {
    let dialog = FileOpsDialog {
        path_buffer: "   ".to_string(),
        ..FileOpsDialog::new()
    };
    assert_eq!(dialog.selected_path(), "untitled.flf");
    let trimmed = FileOpsDialog {
        path_buffer: "  dir/x  ".to_string(),
        ..FileOpsDialog::new()
    };
    assert_eq!(trimmed.selected_path(), "dir/x.flf");
}

#[test]
fn tab_joins_selected_entry() {
    let mut dialog = FileOpsDialog::new();
    dialog.enter_save_as(Some("fonts/old.flf"));
    let entries = vec![
        DirEntry { name: "b.flf".to_string(), is_dir: false },
        DirEntry { name: "a.flf".to_string(), is_dir: false },
    ];
    dialog.apply_listing(&entries);
    assert_eq!(dialog.directory_entries, vec!["a.flf", "b.flf"]);
    dialog.handle_key(KeyCode::Down, false);
    dialog.handle_key(KeyCode::Tab, false);
    assert_eq!(dialog.path_buffer, "fonts/b.flf");
    assert!(dialog.refresh_pending);
    assert_eq!(dialog.listing_dir(false), "fonts");
    assert_eq!(dialog.listing_dir(true), "fonts/b.flf");
}

#[test]
fn temp_path_sits_beside_the_font() {
    assert_eq!(figby::file_ops::temp_path_for("fonts/standard.flf"), "fonts/.standard.tmp");
    assert_eq!(figby::file_ops::temp_path_for("big.flf"), ".big.tmp");
    assert_eq!(figby::file_ops::temp_path_for("/"), "./.font.tmp");
}

#[test]
fn test_recent_files_roundtrip() {
    let mut recent = RecentFiles::new();
    recent.push("/font_a.flf".to_string());
    recent.push("/font_b.flf".to_string());
    let saved = recent.to_text();

    let loaded = RecentFiles::from_text(&saved);
    assert_eq!(loaded.len(), 2);
    assert_eq!(loaded.get(0), Some(&"/font_b.flf".to_string()));
    assert_eq!(loaded.get(1), Some(&"/font_a.flf".to_string()));
}

#[test]
fn recent_push_keeps_others_in_order() {
    let mut r = RecentFiles::new();
    for p in ["/a", "/b", "/c", "/d"] {
        r.push(p.to_string());
    }
    r.push("/b".to_string());
    assert_eq!(r.list(), &["/b".to_string(), "/d".to_string(), "/c".to_string(), "/a".to_string()]);
}

#[test]
fn white_space_matches_std() {
    for v in 0u32..0x3100 {
        if let Some(c) = char::from_u32(v) {
            assert_eq!(figby::text::is_blank(&c.to_string()), c.is_whitespace(), "U+{v:04X}");
        }
    }
    assert!(!figby::text::is_blank("\u{200B}"));
    assert!(figby::text::is_blank("\u{3000}\u{205F}"));
}

#[test]
fn push_treats_paths_with_same_components_as_one() {
    let mut recent = RecentFiles::new();
    recent.push("/tmp/fonts/".to_string());
    recent.push("/a.flf".to_string());
    recent.push("/tmp//fonts".to_string());
    assert_eq!(recent.len(), 2);
    assert_eq!(recent.get(0), Some(&"/tmp//fonts".to_string()));
    assert_eq!(recent.get(1), Some(&"/a.flf".to_string()));
}
